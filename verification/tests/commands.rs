use fourthage_mud::command::{
    handle_command, resolve_entities_in_context, resolve_entities_in_current_room, resolve_entities_in_inventory,
    Command, CommandExecutionError, CommandParseError, CommandResult, EditField, EditTarget, Keywords, SaveRequest,
    SaveTarget, SpawnTarget,
};
use fourthage_mud::data::DataWriteError;
use fourthage_mud::entities::{Description, EntityRegistry, Item, Location, Name, Player};
use fourthage_mud::event::{EventTarget, GameEvent};
use fourthage_mud::model::ids::{Alias, EntityId, RoomId};
use fourthage_mud::model::rooms::{Direction, RoomGraph, RoomGraphNode};
use fourthage_mud::session::SessionContext;

struct Game {
    entities: EntityRegistry,
    rooms: RoomGraph,
    start: RoomId,
    north: RoomId,
    player: SessionContext,
    item: EntityId,
}

fn room(entities: &mut EntityRegistry, uuid: u128, alias: &str, name: &str, description: &str) -> RoomId {
    let id = RoomId::from_uuid(uuid);
    entities.spawn(Some(id.as_entity()), Alias::new(alias)).unwrap();
    entities.update_component(&id.as_entity(), Name::new(name)).unwrap();
    entities.update_component(&id.as_entity(), Description::new(description)).unwrap();
    id
}

fn player(entities: &mut EntityRegistry, uuid: u128, name: &str, at: RoomId, is_admin: bool) -> SessionContext {
    let id = EntityId::from_uuid(uuid);
    entities.spawn(Some(id), Alias::new(name)).unwrap();
    entities.update_component(&id, Name::new(name)).unwrap();
    entities.update_component(&id, Player).unwrap();
    entities.update_component(&id, Location::new(at.as_entity())).unwrap();
    SessionContext { player_id: id, is_admin }
}

fn game(is_admin: bool) -> Game {
    let mut entities = EntityRegistry::new();
    let start = room(&mut entities, 1, "start", "Starting Room", "The room that you start in.");
    let north = room(&mut entities, 2, "north", "North Room", "A room to the north.");
    let mut rooms = RoomGraph::new(start);
    rooms.update_room(start, RoomGraphNode::new(vec![(Direction::North, north)]));
    rooms.update_room(north, RoomGraphNode::new(vec![(Direction::South, start)]));
    let item = EntityId::from_uuid(100);
    entities.spawn(Some(item), Alias::new("test_item")).unwrap();
    entities.update_component(&item, Name::new("Test Item")).unwrap();
    entities.update_component(&item, Description::new("Something to test with.")).unwrap();
    entities.update_component(&item, Item).unwrap();
    entities.update_component(&item, Location::new(start.as_entity())).unwrap();
    let player = player(&mut entities, 10, "player1", start, is_admin);
    Game { entities, rooms, start, north, player, item }
}

fn run(g: &mut Game, line: &str) -> CommandResult {
    let command = match Command::parse(line) {
        Ok(c) => c,
        Err(_) => panic!("not a command: {line}"),
    };
    match handle_command(&g.player, &mut g.entities, &mut g.rooms, command) {
        Ok(r) => r,
        Err(CommandExecutionError::Unrecoverable(s)) => panic!("failed: {s}"),
    }
}

fn answer(g: &mut Game, line: &str) -> String {
    match run(g, line) {
        CommandResult::Query(q) => q.response().to_string(),
        CommandResult::Action(a) => a.response().clone().unwrap_or_default(),
        CommandResult::Unauthorized => "<unauthorized>".to_string(),
        CommandResult::Save(_) => "<save>".to_string(),
    }
}

fn parse_error(line: &str) -> CommandParseError {
    match Command::parse(line) {
        Ok(_) => panic!("expected a parse error for {line}"),
        Err(e) => e,
    }
}

#[test]
fn look_describes_the_room() {
    let mut g = game(false);
    assert_eq!(
        "Starting Room\n\nThe room that you start in.\n\nHere is: Test Item\n\nFrom here you can go: north\n",
        answer(&mut g, "look")
    );
}

#[test]
fn go_moves_and_describes() {
    let mut g = game(false);
    assert_eq!(
        "You go north.\n\nNorth Room\n\nA room to the north.\n\nHere is: nothing\n\nFrom here you can go: south\n",
        answer(&mut g, "go north")
    );
    assert_eq!(
        Some(Location::new(g.north.as_entity())),
        g.entities.get_component::<Location>(&g.player.player_id).unwrap()
    );
    assert_eq!("You cannot go east from here.", answer(&mut g, "go e"));
    answer(&mut g, "go s");
    assert_eq!(
        Some(Location::new(g.start.as_entity())),
        g.entities.get_component::<Location>(&g.player.player_id).unwrap()
    );
}

#[test]
fn say_reaches_the_others_in_the_room() {
    let mut g = game(false);
    match run(&mut g, "say hello") {
        CommandResult::Action(a) => {
            assert_eq!(&Some("You say: hello".to_string()), a.response());
            assert_eq!(1, a.events().len());
            match &a.events()[0].event {
                GameEvent::Message(m) => assert_eq!("player1 says: hello", m),
                GameEvent::SessionEnded => panic!("wrong event"),
            }
            assert_eq!(
                EventTarget::LocationExcept(Location::new(g.start.as_entity()), g.player.player_id),
                a.events()[0].target
            );
        },
        _ => panic!("say is an action"),
    }
}

#[test]
fn take_inventory_and_drop() {
    let mut g = game(false);
    assert_eq!("You took 'Test Item'", answer(&mut g, "take test item"));
    assert_eq!("You are carrying:\n    Test Item", answer(&mut g, "inventory"));
    assert!(!answer(&mut g, "look").contains("Test Item"));
    assert_eq!("There is no 'test' here.", answer(&mut g, "take test"));
    assert_eq!("Test Item\n\nSomething to test with.", answer(&mut g, "inspect ITEM"));
    assert_eq!("You dropped 'Test Item'", answer(&mut g, "drop test"));
    assert_eq!("You aren't carrying anything.", answer(&mut g, "inventory"));
    assert_eq!(
        Some(Location::new(g.start.as_entity())),
        g.entities.get_component::<Location>(&g.item).unwrap()
    );
    assert_eq!("There is no 'test' in your inventory.", answer(&mut g, "drop test"));
}

#[test]
fn take_refuses_ambiguity_and_non_items() {
    let mut g = game(false);
    let other = player(&mut g.entities, 11, "Test Dummy", g.start, false);
    assert_eq!("Which 'test'?", answer(&mut g, "take test"));
    assert_eq!("You can't take 'Test Dummy'!", answer(&mut g, "take dummy"));
    assert_eq!(
        Some(Location::new(g.start.as_entity())),
        g.entities.get_component::<Location>(&other.player_id).unwrap()
    );
}

#[test]
fn who_lists_other_players_sorted() {
    let mut g = game(false);
    assert_eq!("No other players online.", answer(&mut g, "who"));
    player(&mut g.entities, 12, "zed", g.north, false);
    player(&mut g.entities, 13, "alice", g.start, false);
    player(&mut g.entities, 14, "Bob", g.start, false);
    assert_eq!("Online:\n    Bob\n    alice\n    zed", answer(&mut g, "who"));
}

#[test]
fn quit_ends_the_session() {
    let mut g = game(false);
    match run(&mut g, "quit") {
        CommandResult::Action(a) => {
            assert_eq!(&Some("Goodbye player1!".to_string()), a.response());
            assert_eq!(EventTarget::Entity(g.player.player_id), a.events()[0].target);
            assert!(matches!(a.events()[0].event, GameEvent::SessionEnded));
        },
        _ => panic!("quit is an action"),
    }
}

#[test]
fn admin_commands_are_refused_to_players() {
    let mut g = game(false);
    for line in ["roominfo", "edit room name X", "link n north", "unlink n", "create e annex", "spawn item lamp", "save rooms r.yaml"] {
        assert!(matches!(run(&mut g, line), CommandResult::Unauthorized), "{line}");
    }
    assert_eq!(None, g.entities.resolve_alias(&Alias::new("lamp")));
}

#[test]
fn roominfo_shows_aliases_and_ids() {
    let mut g = game(true);
    assert_eq!(
        "start (00000000-0000-0000-0000-000000000001)\n\nnorth: north (00000000-0000-0000-0000-000000000002)",
        answer(&mut g, "roominfo")
    );
}

#[test]
fn unlink_then_link_restores_the_exits() {
    let mut g = game(true);
    assert_eq!("Removed link between 'start' and 'north'", answer(&mut g, "unlink north"));
    assert_eq!("Current room has no north exit.", answer(&mut g, "unlink north"));
    assert!(!g.rooms.get_room(&g.north).unwrap().has_exit(&Direction::South));
    assert_eq!("Unknown room alias: 'nowhere'", answer(&mut g, "link n nowhere"));
    assert_eq!("Linked 'start' to 'north'", answer(&mut g, "link n north"));
    assert_eq!(Some(g.north), g.rooms.get_room(&g.start).unwrap().get_destination(Direction::North));
    assert_eq!(Some(g.start), g.rooms.get_room(&g.north).unwrap().get_destination(Direction::South));
    assert_eq!("Current room already has an exit to the north", answer(&mut g, "link n north"));
}

#[test]
fn create_spawn_and_edit() {
    let mut g = game(true);
    assert_eq!("Created room 'annex' to the east.", answer(&mut g, "create east annex"));
    let annex = g.entities.resolve_alias(&Alias::new("annex")).unwrap();
    assert_eq!(
        Some(RoomId::from_entity(annex)),
        g.rooms.get_room(&g.start).unwrap().get_destination(Direction::East)
    );
    assert_eq!(
        Some(g.start),
        g.rooms.get_room(&RoomId::from_entity(annex)).unwrap().get_destination(Direction::West)
    );
    assert_eq!("Spawned item 'lamp'", answer(&mut g, "spawn item lamp"));
    assert_eq!("An entity already exists with alias 'lamp'", answer(&mut g, "spawn npc lamp"));
    assert_eq!("Updated name of 'lamp'", answer(&mut g, "edit lamp name Brass Lamp"));
    assert_eq!("Updated description of 'start'", answer(&mut g, "edit room desc A quiet hall."));
    assert_eq!("Could not resolve alias 'ghost'", answer(&mut g, "edit ghost name x"));
    let look = answer(&mut g, "look");
    assert!(look.starts_with("Starting Room\n\nA quiet hall.\n\nHere is: "));
    assert!(look.contains("Brass Lamp"));
    assert!(look.ends_with("From here you can go: north, east\n"));
}

#[test]
fn save_collects_records_and_answers() {
    let mut g = game(true);
    assert_eq!("Invalid path: ../etc", answer(&mut g, "save rooms ../etc"));
    match run(&mut g, "save rooms rooms.yaml") {
        CommandResult::Save(request) => {
            match &request {
                SaveRequest::Rooms(file, records) => {
                    assert_eq!("data/rooms.yaml", file);
                    assert_eq!(2, records.len());
                },
                _ => panic!("rooms were asked for"),
            }
            assert_eq!("Rooms saved to 'data/rooms.yaml'", request.answer(Ok(())).response());
            assert_eq!(
                "Could not save rooms to 'data/rooms.yaml': FileWrite",
                request.answer(Err(DataWriteError::FileWrite)).response()
            );
        },
        _ => panic!("save gives a request"),
    }
    // The item has no spawn location, so there is nothing to save.
    match run(&mut g, "save items items.yaml") {
        CommandResult::Save(SaveRequest::Items(_, records)) => assert!(records.is_empty()),
        _ => panic!("save gives a request"),
    }
    answer(&mut g, "spawn npc guard");
    g.entities.update_component(&g.entities.resolve_alias(&Alias::new("guard")).unwrap(), Description::new("Stern.")).unwrap();
    match run(&mut g, "save npcs npcs.yaml") {
        CommandResult::Save(request) => {
            match &request {
                SaveRequest::Npcs(_, records) => {
                    assert_eq!(1, records.len());
                    assert_eq!("guard", records[0].1.alias.as_str());
                    assert_eq!("Unnamed", records[0].1.name);
                    assert_eq!("start", records[0].1.spawn_location.as_str());
                },
                _ => panic!("NPCs were asked for"),
            }
            assert_eq!(
                "Could not save NPCs to 'data/npcs.yaml': Serialization",
                request.answer(Err(DataWriteError::Serialization)).response()
            );
        },
        _ => panic!("save gives a request"),
    }
    answer(&mut g, "spawn item cup");
    assert_eq!("Cannot serialize items - missing description for 'cup'", answer(&mut g, "save items x"));
}

#[test]
fn parse_reads_commands() {
    assert!(matches!(Command::parse("LOOK"), Ok(Command::Look)));
    assert!(matches!(Command::parse("  go   N "), Ok(Command::Go(Direction::North))));
    match Command::parse("say  hello   there ") {
        Ok(Command::Say(s)) => assert_eq!("hello there", s),
        _ => panic!("say"),
    }
    match Command::parse("Take Brass LAMP") {
        Ok(Command::Take(k)) => assert_eq!("brass lamp", k.to_string()),
        _ => panic!("take"),
    }
    match Command::parse("edit room title The Hall") {
        Ok(Command::Edit(EditTarget::Room, EditField::Name, c)) => assert_eq!("The Hall", c),
        _ => panic!("edit"),
    }
    match Command::parse("save npcs out.yaml") {
        Ok(Command::Save(SaveTarget::Npcs, p)) => assert_eq!("out.yaml", p),
        _ => panic!("save"),
    }
    match Command::parse("spawn npc guard") {
        Ok(Command::Spawn(SpawnTarget::Npc, a)) => assert_eq!("guard", a.as_str()),
        _ => panic!("spawn"),
    }
    assert!(matches!(Command::parse("unlink W"), Ok(Command::Unlink(Direction::West))));
}

#[test]
fn parse_reports_errors() {
    assert!(matches!(parse_error("dance wildly"), CommandParseError::UnknownCommand(s) if s == "dance wildly"));
    assert!(matches!(parse_error(""), CommandParseError::UnknownCommand(s) if s.is_empty()));
    assert!(matches!(parse_error("go"), CommandParseError::InvalidSyntax(s) if s == "Go where?"));
    assert!(matches!(parse_error("go Up"), CommandParseError::InvalidSyntax(s) if s == "You can't go Up!"));
    assert!(matches!(parse_error("say"), CommandParseError::InvalidSyntax(s) if s == "Say what?"));
    assert!(matches!(parse_error("take"), CommandParseError::InvalidSyntax(s) if s == "Take what?"));
    assert!(matches!(parse_error("edit room"), CommandParseError::InvalidSyntax(s) if s == "Edit which field?"));
    assert!(matches!(parse_error("edit room colour red"), CommandParseError::UnknownCommand(s) if s == "Unknown edit field 'colour'"));
    assert!(matches!(parse_error("edit room name"), CommandParseError::InvalidSyntax(s) if s == "No edit content!"));
    assert!(matches!(parse_error("save stuff x"), CommandParseError::UnknownCommand(s) if s == "Don't know how to save 'stuff'!"));
    assert!(matches!(parse_error("save rooms"), CommandParseError::InvalidSyntax(s) if s == "Save to where?"));
    assert!(matches!(parse_error("link UP x"), CommandParseError::InvalidDirection(s) if s == "up"));
    assert!(matches!(parse_error("link n"), CommandParseError::InvalidSyntax(s) if s == "Link to where?"));
    assert!(matches!(parse_error("create"), CommandParseError::InvalidSyntax(s) if s == "Create in which direction?"));
    assert!(matches!(parse_error("spawn dragon x"), CommandParseError::InvalidSyntax(s) if s == "Cannot spawn dragon!"));
    assert!(matches!(parse_error("spawn item"), CommandParseError::InvalidSyntax(s) if s == "With what alias?"));
}

#[test]
fn keywords_display_with_spaces() {
    let k = Keywords(vec!["red".to_string(), "apple".to_string()]);
    assert_eq!("red apple", k.to_string());
}

#[test]
fn drop_after_take_with_other_things_carried() {
    let mut g = game(false);
    let lamp = EntityId::from_uuid(200);
    g.entities.spawn(Some(lamp), Alias::new("lamp")).unwrap();
    g.entities.update_component(&lamp, Name::new("Brass Lamp")).unwrap();
    g.entities.update_component(&lamp, Item).unwrap();
    g.entities.update_component(&lamp, Location::new(g.player.player_id)).unwrap();
    assert_eq!("You took 'Test Item'", answer(&mut g, "take test item"));
    assert_eq!("You dropped 'Test Item'", answer(&mut g, "drop test item"));
    assert_eq!(
        Some(Location::new(g.start.as_entity())),
        g.entities.get_component::<Location>(&g.item).unwrap()
    );
    assert_eq!(
        Some(Location::new(g.player.player_id)),
        g.entities.get_component::<Location>(&lamp).unwrap()
    );
}

#[test]
fn inspect_counts_carried_and_room_matches() {
    let mut g = game(false);
    let lamp = EntityId::from_uuid(201);
    g.entities.spawn(Some(lamp), Alias::new("lamp")).unwrap();
    g.entities.update_component(&lamp, Name::new("Test Lamp")).unwrap();
    g.entities.update_component(&lamp, Location::new(g.player.player_id)).unwrap();
    assert_eq!("Which 'test'?", answer(&mut g, "inspect test"));
    assert_eq!("Test Lamp", answer(&mut g, "inspect lamp"));
    assert_eq!("Test Item\n\nSomething to test with.", answer(&mut g, "inspect item"));
    assert_eq!("There is no 'chair' in your inventory.", answer(&mut g, "inspect chair"));
}

#[test]
fn words_split_on_unicode_whitespace() {
    assert!(matches!(Command::parse("go\u{3000}north"), Ok(Command::Go(Direction::North))));
    assert!(matches!(Command::parse("\tgo\u{2028}\u{00a0}s\u{205f}"), Ok(Command::Go(Direction::South))));
    match Command::parse("take\u{0085}Brass\u{2003}Lamp") {
        Ok(Command::Take(k)) => assert_eq!(vec!["brass".to_string(), "lamp".to_string()], k.0),
        _ => panic!("take with keywords"),
    }
    assert!(matches!(parse_error("go\u{200b}north"), CommandParseError::UnknownCommand(_)));
}

#[test]
fn resolving_in_context_lists_carried_matches_first() {
    let mut g = game(false);
    let lamp = EntityId::from_uuid(202);
    g.entities.spawn(Some(lamp), Alias::new("lamp")).unwrap();
    g.entities.update_component(&lamp, Name::new("Test Lamp")).unwrap();
    g.entities.update_component(&lamp, Location::new(g.player.player_id)).unwrap();
    let keywords = Keywords(vec!["test".to_string()]);
    assert_eq!(vec![lamp], resolve_entities_in_inventory(&g.player, &g.entities, &keywords));
    match resolve_entities_in_current_room(&g.player, &g.entities, &keywords) {
        Ok(ids) => assert_eq!(vec![g.item], ids),
        Err(_) => panic!("the player has a position"),
    }
    match resolve_entities_in_context(&g.player, &g.entities, &keywords) {
        Ok(ids) => assert_eq!(vec![lamp, g.item], ids),
        Err(_) => panic!("the player has a position"),
    }
    let nowhere = SessionContext { player_id: EntityId::from_uuid(999), is_admin: false };
    assert!(resolve_entities_in_context(&nowhere, &g.entities, &keywords).is_err());
}
