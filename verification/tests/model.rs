use fourthage_mud::command::SpawnTarget;
use fourthage_mud::data::{ItemData, RoomData};
use fourthage_mud::entities::{
    Description, EntityRegistry, EntityRegistryError, Item, Location, Name, Npc, SpawnLocation,
};
use fourthage_mud::event::{EventBus, GameEvent};
use fourthage_mud::model::ids::{Alias, EntityId, RoomId};
use fourthage_mud::model::player::Player;
use fourthage_mud::model::rooms::{Direction, DirectionParseError, RoomGraph, RoomGraphNode};
use fourthage_mud::model::world::{Room, World, DEFAULT_ROOM_UUID};
use fourthage_mud::persistence::PersistenceSystem;
use fourthage_mud::seed::{ItemSeeder, RoomSeeder, SeedError};
use fourthage_mud::text::{sort_texts, split_words, text_less_eq};

#[test]
fn ids_display_as_hyphenated_uuids() {
    let id = EntityId::from_uuid(0x019e5690_0757_7256_97c1_a403f4d347ca);
    assert_eq!("019e5690-0757-7256-97c1-a403f4d347ca", id.to_string());
    assert_eq!("EntityId(019e5690-0757-7256-97c1-a403f4d347ca)", id.debug_string());
    assert_eq!(id.to_string(), RoomId::from_entity(id).to_string());
    assert_eq!(0x019e5690_0757_7256_97c1_a403f4d347ca, RoomId::from_uuid(id.as_uuid()).as_uuid());
}

#[test]
fn generated_ids_are_version_seven_and_distinct() {
    let a = EntityId::generate();
    let b = RoomId::generate();
    assert_eq!(7, (a.as_uuid() >> 76) & 0xf);
    assert_eq!(7, (b.as_uuid() >> 76) & 0xf);
    assert_ne!(a, b.as_entity());
}

#[test]
fn registry_errors_print_like_debug() {
    let e = EntityRegistryError::DuplicateAlias(Alias::new("say \"hi\""));
    assert_eq!("DuplicateAlias(Alias(\"say \\\"hi\\\"\"))", e.debug_string());
    assert_eq!("InconsistentInternalState", EntityRegistryError::InconsistentInternalState.debug_string());
}

#[test]
fn directions_parse_in_any_case() {
    assert_eq!(Direction::North, Direction::from_string("N").ok().unwrap());
    assert_eq!(Direction::West, Direction::from_string("wEsT").ok().unwrap());
    match Direction::from_string("UP") {
        Err(DirectionParseError::Invalid(s)) => assert_eq!("up", s),
        Ok(_) => panic!("up is no direction"),
    }
    for d in [Direction::North, Direction::South, Direction::East, Direction::West] {
        assert_eq!(d, d.opposite().opposite());
        assert_ne!(d, d.opposite());
        assert_eq!(d, Direction::from_string(&d.to_string()).ok().unwrap());
    }
    assert_eq!("east", Direction::East.name());
}

#[test]
fn room_nodes_hold_exits() {
    let a = RoomId::from_uuid(1);
    let b = RoomId::from_uuid(2);
    let mut node = RoomGraphNode::new(vec![(Direction::East, a), (Direction::North, b), (Direction::East, b)]);
    assert_eq!(vec![Direction::North, Direction::East], node.exits());
    assert_eq!(Some(b), node.get_destination(Direction::East));
    node.set_exit(Direction::South, a);
    assert!(node.has_exit(&Direction::South));
    node.remove_exit(&Direction::South);
    assert!(!node.has_exit(&Direction::South));
    assert_eq!(None, node.get_destination(Direction::South));
}

#[test]
fn room_graph_stores_rooms() {
    let start = RoomId::from_uuid(1);
    let mut graph = RoomGraph::new(start);
    assert_eq!(start, graph.default_room_id());
    assert!(graph.get_room(&start).is_none());
    graph.update_room(start, RoomGraphNode::new(vec![(Direction::North, RoomId::from_uuid(2))]));
    assert!(graph.get_room(&start).unwrap().has_exit(&Direction::North));
    assert_eq!(1, graph.rooms().len());
}

fn room(alias: &str, name: &str) -> Room {
    Room::new(alias.to_string(), name.to_string(), "desc".to_string(), RoomGraphNode::new(Vec::new()))
}

#[test]
fn world_keeps_rooms_and_aliases() {
    let a = RoomId::from_uuid(1);
    let b = RoomId::from_uuid(2);
    let mut world = World::new(vec![(a, room("hall", "Hall")), (b, room("yard", "Yard"))]);
    assert_eq!(Some(a), world.resolve_alias("hall"));
    assert_eq!("Yard", world.get_room(&b).unwrap().name());
    assert_eq!(2, world.rooms().len());

    // Replacing a room drops the old alias.
    let mut cellar = room("cellar", "Cellar");
    cellar.set_exit(Direction::North, b);
    cellar.set_description("Damp.".to_string());
    world.update_room(a, cellar);
    assert_eq!(None, world.resolve_alias("hall"));
    assert_eq!(Some(a), world.resolve_alias("cellar"));
    let stored = world.get_room(&a).unwrap();
    assert_eq!("Damp.", stored.description());
    assert_eq!("cellar", stored.alias());
    assert_eq!(Some(b), stored.get_destination(Direction::North));
    assert!(stored.has_exit(&Direction::North));
    assert_eq!(vec![Direction::North], stored.exits());
    assert_eq!(0x019e5690_0757_7256_97c1_a403f4d347ca, World::default_room_id().as_uuid());
    assert_eq!(DEFAULT_ROOM_UUID, World::default_room_id().as_uuid());
}

#[test]
fn players_move_between_rooms() {
    let mut p = Player::new("ann".to_string(), RoomId::from_uuid(1));
    assert_eq!("ann", p.name());
    p.move_to(&RoomId::from_uuid(2));
    assert_eq!(&RoomId::from_uuid(2), p.current_room());
}

#[test]
fn texts_split_compare_and_sort() {
    assert_eq!(vec!["a".to_string(), "bc".to_string()], split_words(" a\tbc \n"));
    assert!(text_less_eq("abc", "abd"));
    assert!(text_less_eq("ab", "abc"));
    assert!(!text_less_eq("b", "abc"));
    assert!(text_less_eq("Z", "a"));
    let sorted = sort_texts(vec!["pear".to_string(), "Apple".to_string(), "apple".to_string(), "pear".to_string()]);
    assert_eq!(vec!["Apple".to_string(), "apple".to_string(), "pear".to_string(), "pear".to_string()], sorted);
}

#[test]
fn event_bus_reaches_subscribers() {
    let mut bus = EventBus::new();
    let a = EntityId::from_uuid(1);
    let b = EntityId::from_uuid(2);
    let _ra = bus.register(&a);
    let targets = bus.resolve_targets(&[b, a, b]);
    assert_eq!(vec![a], targets.iter().map(|t| t.0).collect::<Vec<EntityId>>());
    let _rb = bus.register(&b);
    assert_eq!(3, bus.resolve_targets(&[b, a, b]).len());
    bus.unregister(&a);
    assert_eq!(2, bus.resolve_targets(&[b, a, b]).len());
}

#[test]
fn rooms_are_seeded_from_records() {
    let mut entities = EntityRegistry::new();
    let mut graph = RoomGraph::new(RoomId::from_uuid(1));
    let rows = vec![
        (RoomId::from_uuid(1), RoomData {
            alias: Alias::new("start"),
            name: "Starting Room".to_string(),
            description: "The room that you start in.".to_string(),
            exits: vec![(Direction::North, RoomId::from_uuid(2))],
        }),
        (RoomId::from_uuid(2), RoomData {
            alias: Alias::new("north"),
            name: "North Room".to_string(),
            description: "Cold.".to_string(),
            exits: vec![(Direction::South, RoomId::from_uuid(1))],
        }),
    ];
    assert!(RoomSeeder::seed(rows, &mut graph, &mut entities).is_ok());
    assert_eq!(Some(RoomId::from_uuid(2).as_entity()), entities.resolve_alias(&Alias::new("north")));
    assert_eq!("Cold.", entities.get_component::<Description>(&RoomId::from_uuid(2).as_entity()).unwrap().unwrap().to_string());
    assert_eq!(Some(RoomId::from_uuid(1)), graph.get_room(&RoomId::from_uuid(2)).unwrap().get_destination(Direction::South));

    let again = vec![(RoomId::from_uuid(3), RoomData {
        alias: Alias::new("north"),
        name: "Copy".to_string(),
        description: "Copy.".to_string(),
        exits: Vec::new(),
    })];
    match RoomSeeder::seed(again, &mut graph, &mut entities) {
        Err(SeedError::EntityRegistry(EntityRegistryError::DuplicateAlias(a))) => assert_eq!("north", a.as_str()),
        _ => panic!("a taken alias stops seeding"),
    }
}

#[test]
fn items_are_placed_in_their_spawn_rooms() {
    let mut entities = EntityRegistry::new();
    let hall = EntityId::from_uuid(1);
    entities.spawn(Some(hall), Alias::new("hall")).unwrap();
    let item = ItemData {
        alias: Alias::new("lamp"),
        name: "Lamp".to_string(),
        description: "Bright.".to_string(),
        spawn_location: Alias::new("hall"),
    };
    let room = match ItemSeeder::spawn_room(&entities, &item) {
        Ok(r) => r,
        Err(_) => panic!("the hall exists"),
    };
    assert_eq!(hall, room);
    let id = EntityId::from_uuid(50);
    assert!(ItemSeeder::place(&mut entities, id, item, Location::new(room), room, SpawnTarget::Item).is_ok());
    assert!(entities.has_component::<Item>(&id).unwrap());
    assert!(!entities.has_component::<Npc>(&id).unwrap());
    assert_eq!(Some(SpawnLocation { value: hall }), entities.get_component::<SpawnLocation>(&id).unwrap());
    assert_eq!("Lamp", entities.get_component::<Name>(&id).unwrap().unwrap().as_str());

    let lost = ItemData {
        alias: Alias::new("key"),
        name: "Key".to_string(),
        description: "Small.".to_string(),
        spawn_location: Alias::new("nowhere"),
    };
    match ItemSeeder::spawn_room(&entities, &lost) {
        Err(SeedError::UnknownAlias(a)) => assert_eq!("nowhere", a.as_str()),
        _ => panic!("an unknown spawn room stops seeding"),
    }
}

#[test]
fn persistence_writes_every_position() {
    let mut entities = EntityRegistry::new();
    let a = entities.spawn(None, Alias::new("a")).unwrap();
    let b = entities.spawn(None, Alias::new("b")).unwrap();
    let room = Location::new(EntityId::from_uuid(1));
    entities.update_component(&a, room).unwrap();
    entities.update_component(&b, Name::new("no place")).unwrap();
    let system = PersistenceSystem;
    assert_eq!("PersistenceSystem", system.name());
    assert_eq!(vec![(a, room)], system.positions(&entities));
}

#[test]
fn direction_errors_keep_non_ascii_letters() {
    match Direction::from_string("ÄuP-Z9") {
        Err(DirectionParseError::Invalid(s)) => assert_eq!("Äup-z9", s),
        Ok(_) => panic!("not a direction"),
    }
    assert_eq!(Direction::South, Direction::from_string("SOUTH").ok().unwrap());
}

#[test]
fn event_bus_hands_each_target_its_own_channel() {
    let mut bus = EventBus::new();
    let a = EntityId::from_uuid(1);
    let b = EntityId::from_uuid(2);
    let mut ra = bus.register(&a);
    let mut rb = bus.register(&b);
    let targets = bus.resolve_targets(&[b, a]);
    assert_eq!(vec![b, a], targets.iter().map(|t| t.0).collect::<Vec<EntityId>>());
    targets[0].1.try_send(GameEvent::Message("to b".to_string())).unwrap();
    targets[1].1.try_send(GameEvent::Message("to a".to_string())).unwrap();
    match (ra.try_recv(), rb.try_recv()) {
        (Ok(GameEvent::Message(x)), Ok(GameEvent::Message(y))) => {
            assert_eq!("to a", x);
            assert_eq!("to b", y);
        },
        _ => panic!("each target gets one message"),
    }
    assert!(ra.try_recv().is_err());
    assert!(rb.try_recv().is_err());
}
