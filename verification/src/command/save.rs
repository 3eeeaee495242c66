//! The administrator's `save` command: collecting the rooms, items or NPCs of the world
//! as data-file records.
use vstd::prelude::*;
use crate::model::ids::{uuid_text, EntityId, RoomId};
use crate::model::rooms::{exits_from_pairs, Direction, RoomGraph, RoomGraphNode};
use crate::entities::{
    lists3, ComponentKind, ComponentValue, Description, EntityRegistry, EntityRegistryError, Item,
    Name, Npc, SpawnLocation, ComponentStorage,
};
use crate::data::{keyed_views, lemma_scan_err, lemma_scan_ok, lemma_scan_step, lemma_scan_stop, scan, EntityDataView, ItemData, NpcData, RoomData, RoomDataView};
use crate::session::SessionContext;
use crate::text::{cat2, cat3, contains, seq_contains};
use super::{
    query_outcome, registry_failure_text, text_of, CommandExecutionError, CommandResult, CommandResultView, QueryResult,
    SaveRequest, SaveRequestView, SaveTarget, outcome,
};

verus! {

/// `order` lists every room of the graph once, with its node.
pub open spec fn lists_rooms(graph: &RoomGraph, order: Seq<(RoomId, RoomGraphNode)>) -> bool {
    &&& forall|i: int| 0 <= i < order.len() ==> #[trigger] graph@.contains_key(order[i].0) && graph@[order[i].0] == order[i].1
    &&& forall|id: RoomId| #[trigger] graph@.contains_key(id) ==> exists|i: int| 0 <= i < order.len() && order[i].0 == id
    &&& forall|i: int, j: int| 0 <= i < j < order.len() ==> order[i].0 != order[j].0
}

/// What a stopped `save` answers.
pub type Stop = Result<CommandResultView, Seq<char>>;

/// The record of one room, or why saving stops at it.
pub open spec fn room_record(reg: &EntityRegistry, row: (RoomId, RoomGraphNode)) -> Result<(RoomId, RoomDataView), Stop> {
    let e = row.0.entity;
    if !reg.aliases().contains_key(e) {
        Err(Err(registry_failure_text(EntityRegistryError::UnknownEntity(e))))
    } else {
        let alias = reg.aliases()[e];
        if !reg.table(ComponentKind::Name).contains_key(e) {
            Err(query_outcome("Cannot serialize rooms - no name for '"@ + alias + "'"@))
        } else if !reg.table(ComponentKind::Description).contains_key(e) {
            Err(query_outcome("Cannot serialize rooms - no description for '"@ + alias + "'"@))
        } else {
            Ok((row.0, RoomDataView {
                alias,
                name: text_of(reg.table(ComponentKind::Name)[e]),
                description: text_of(reg.table(ComponentKind::Description)[e]),
                exits: row.1@,
            }))
        }
    }
}

/// The record of one item or NPC (`what` names the kind in the answer), or why saving
/// stops at it.
pub open spec fn entity_record(
    reg: &EntityRegistry,
    e: EntityId,
    name: Seq<char>,
    spawn: EntityId,
    what: Seq<char>,
) -> Result<(EntityId, EntityDataView), Stop> {
    if !reg.aliases().contains_key(e) {
        Err(Err(registry_failure_text(EntityRegistryError::UnknownEntity(e))))
    } else if !reg.aliases().contains_key(spawn) {
        Err(query_outcome("Invalid room ID: "@ + uuid_text(spawn.uuid)))
    } else if !reg.table(ComponentKind::Description).contains_key(e) {
        Err(query_outcome("Cannot serialize "@ + what + " - missing description for '"@ + reg.aliases()[e] + "'"@))
    } else {
        Ok((e, EntityDataView {
            alias: reg.aliases()[e],
            name,
            description: text_of(reg.table(ComponentKind::Description)[e]),
            spawn_location: reg.aliases()[spawn],
        }))
    }
}

/// The outcome of a scan: its stop, or the request that carries its records.
pub open spec fn scanned<B>(r: Result<Seq<B>, Stop>, request: spec_fn(Seq<B>) -> SaveRequestView) -> Stop {
    match r {
        Err(stop) => stop,
        Ok(records) => Ok(CommandResultView::Save(request(records))),
    }
}

/// `save`: an administrator collects the rooms, items or NPCs of the world as records for
/// the file `data/<path>`, in some order. A path with `..` is refused. Collecting stops at
/// the first record that cannot be made.
pub open spec fn save_outcome(
    reg: &EntityRegistry,
    graph: &RoomGraph,
    ctx: SessionContext,
    t: SaveTarget,
    path: Seq<char>,
    o: Stop,
) -> bool {
    let file = "data/"@ + path;
    if !ctx.is_admin {
        o == Ok::<CommandResultView, Seq<char>>(CommandResultView::Unauthorized)
    } else if seq_contains(path, ".."@) {
        o == query_outcome("Invalid path: "@ + path)
    } else {
        match t {
            SaveTarget::Rooms => exists|order: Seq<(RoomId, RoomGraphNode)>| #[trigger] lists_rooms(graph, order) && o == scanned(
                scan(order, |row: (RoomId, RoomGraphNode)| room_record(reg, row)),
                |records: Seq<(RoomId, RoomDataView)>| SaveRequestView::Rooms(file, records),
            ),
            SaveTarget::Items => exists|rows: Seq<(EntityId, (Item, Name, SpawnLocation))>| #[trigger] lists3(
                rows,
                reg.table(ComponentKind::Item),
                reg.table(ComponentKind::Name),
                reg.table(ComponentKind::SpawnLocation),
            ) && o == scanned(
                scan(rows, |row: (EntityId, (Item, Name, SpawnLocation))| entity_record(reg, row.0, row.1.1@, row.1.2.value, "items"@)),
                |records: Seq<(EntityId, EntityDataView)>| SaveRequestView::Items(file, records),
            ),
            SaveTarget::Npcs => exists|rows: Seq<(EntityId, (Npc, Name, SpawnLocation))>| #[trigger] lists3(
                rows,
                reg.table(ComponentKind::Npc),
                reg.table(ComponentKind::Name),
                reg.table(ComponentKind::SpawnLocation),
            ) && o == scanned(
                scan(rows, |row: (EntityId, (Npc, Name, SpawnLocation))| entity_record(reg, row.0, row.1.1@, row.1.2.value, "NPCs"@)),
                |records: Seq<(EntityId, EntityDataView)>| SaveRequestView::Npcs(file, records),
            ),
        }
    }
}

/// Adds the exit in direction `d` of `node`, if it has one.
fn push_exit(r: &mut Vec<(Direction, RoomId)>, node: &RoomGraphNode, d: Direction)
    ensures
        exits_from_pairs(final(r)@) == if node@.contains_key(d) {
            exits_from_pairs(old(r)@).insert(d, node@[d])
        } else {
            exits_from_pairs(old(r)@)
        },
{
    match node.get_destination(d) {
        Some(dest) => {
            let ghost prev = r@;
            r.push((d, dest));
            assert(r@.drop_last() =~= prev);
        },
        None => {},
    }
}

/// The exits of a node as (direction, destination) pairs.
fn exit_pairs(node: &RoomGraphNode) -> (r: Vec<(Direction, RoomId)>)
    ensures
        exits_from_pairs(r@) == node@,
{
    let mut r: Vec<(Direction, RoomId)> = Vec::new();
    push_exit(&mut r, node, Direction::North);
    push_exit(&mut r, node, Direction::South);
    push_exit(&mut r, node, Direction::East);
    push_exit(&mut r, node, Direction::West);
    assert(exits_from_pairs(r@) =~= node@) by {
        assert forall|d: Direction| #[trigger] node@.contains_key(d) == exits_from_pairs(r@).contains_key(d) by {
            match d {
                Direction::North => {},
                Direction::South => {},
                Direction::East => {},
                Direction::West => {},
            }
        }
    }
    r
}

/// The records of all rooms, or why saving stops.
fn room_records(entities: &EntityRegistry, rooms: &RoomGraph) -> (r: Result<Vec<(RoomId, RoomData)>, Result<CommandResult, CommandExecutionError>>)
    ensures
        exists|order: Seq<(RoomId, RoomGraphNode)>| #[trigger] lists_rooms(rooms, order) && match r {
            Ok(records) => scan(order, |row: (RoomId, RoomGraphNode)| room_record(entities, row))
                == Ok::<Seq<(RoomId, RoomDataView)>, Stop>(keyed_views(records@)),
            Err(stop) => scan(order, |row: (RoomId, RoomGraphNode)| room_record(entities, row))
                == Err::<Seq<(RoomId, RoomDataView)>, Stop>(outcome(stop)),
        },
{
    let all = rooms.rooms();
    let ghost f = |row: (RoomId, RoomGraphNode)| room_record(entities, row);
    let mut records: Vec<(RoomId, RoomData)> = Vec::new();
    let mut i: usize = 0;
    assert(all@.take(0) =~= Seq::<(RoomId, RoomGraphNode)>::empty());
    assert(keyed_views(records@) =~= Seq::<(RoomId, RoomDataView)>::empty());
    assert forall|i: int| 0 <= i < all@.len() implies #[trigger] rooms@.contains_key(all@[i].0) && rooms@[all@[i].0] == all@[i].1 by {}
    assert forall|id: RoomId| #[trigger] rooms@.contains_key(id) implies exists|i: int| 0 <= i < all@.len() && all@[i].0 == id by {}
    assert forall|i: int, j: int| 0 <= i < j < all@.len() implies all@[i].0 != all@[j].0 by {}
    assert(lists_rooms(rooms, all@));
    while i < all.len()
        invariant
            i <= all.len(),
            lists_rooms(rooms, all@),
            f == (|row: (RoomId, RoomGraphNode)| room_record(entities, row)),
            scan(all@.take(i as int), f) == Ok::<Seq<(RoomId, RoomDataView)>, Stop>(keyed_views(records@)),
        decreases all.len() - i,
    {
        let (id, room) = all[i];
        proof {
            lemma_scan_step(all@, f, i as int);
        }
        let e = id.as_entity();
        let alias = match entities.get_alias(&e) {
            Ok(a) => a,
            Err(err) => {
                let stop = Err(CommandExecutionError::from_registry(err));
                proof {
                    lemma_scan_stop(all@, f, i + 1);
                }
                return Err(stop);
            },
        };
        let name = match entities.get_component::<Name>(&e) {
            Ok(Some(n)) => n,
            Ok(None) => {
                let stop = Ok(CommandResult::Query(QueryResult::new(cat3("Cannot serialize rooms - no name for '", alias.as_str(), "'"))));
                proof {
                    lemma_scan_stop(all@, f, i + 1);
                }
                return Err(stop);
            },
            Err(err) => {
                return Err(Err(CommandExecutionError::from_registry(err)));
            },
        };
        let description = match entities.get_component::<Description>(&e) {
            Ok(Some(d)) => d,
            Ok(None) => {
                let stop = Ok(
                    CommandResult::Query(QueryResult::new(cat3("Cannot serialize rooms - no description for '", alias.as_str(), "'"))),
                );
                proof {
                    lemma_scan_stop(all@, f, i + 1);
                }
                return Err(stop);
            },
            Err(err) => {
                return Err(Err(CommandExecutionError::from_registry(err)));
            },
        };
        let exits = exit_pairs(&room);
        let ghost prev = keyed_views(records@);
        records.push((id, RoomData { alias, name: name.text, description: description.text, exits }));
        assert(keyed_views(records@) =~= prev.push(keyed_views(records@).last()));
        i = i + 1;
    }
    assert(all@.take(all.len() as int) =~= all@);
    Ok(records)
}

/// The records of the entities with a marker component `T`, a name and a spawn location
/// (`what` names their kind in the answers), or why saving stops.
fn entity_records<T: ComponentStorage>(entities: &EntityRegistry, what: &str) -> (r: Result<Vec<(EntityId, ItemData)>, Result<CommandResult, CommandExecutionError>>)
    ensures
        exists|rows: Seq<(EntityId, (T, Name, SpawnLocation))>| #[trigger] lists3(
            rows,
            entities.table(T::kind()),
            entities.table(ComponentKind::Name),
            entities.table(ComponentKind::SpawnLocation),
        ) && match r {
            Ok(records) => scan(rows, |row: (EntityId, (T, Name, SpawnLocation))| entity_record(entities, row.0, row.1.1@, row.1.2.value, what@))
                == Ok::<Seq<(EntityId, EntityDataView)>, Stop>(keyed_views(records@)),
            Err(stop) => scan(rows, |row: (EntityId, (T, Name, SpawnLocation))| entity_record(entities, row.0, row.1.1@, row.1.2.value, what@))
                == Err::<Seq<(EntityId, EntityDataView)>, Stop>(outcome(stop)),
        },
{
    let all = entities.query3::<T, Name, SpawnLocation>();
    let ghost f = |row: (EntityId, (T, Name, SpawnLocation))| entity_record(entities, row.0, row.1.1@, row.1.2.value, what@);
    let mut records: Vec<(EntityId, ItemData)> = Vec::new();
    let mut i: usize = 0;
    assert(all@.take(0) =~= Seq::<(EntityId, (T, Name, SpawnLocation))>::empty());
    assert(keyed_views(records@) =~= Seq::<(EntityId, EntityDataView)>::empty());
    while i < all.len()
        invariant
            i <= all.len(),
            f == (|row: (EntityId, (T, Name, SpawnLocation))| entity_record(entities, row.0, row.1.1@, row.1.2.value, what@)),
            lists3(all@, entities.table(T::kind()), entities.table(ComponentKind::Name), entities.table(ComponentKind::SpawnLocation)),
            scan(all@.take(i as int), f) == Ok::<Seq<(EntityId, EntityDataView)>, Stop>(keyed_views(records@)),
        decreases all.len() - i,
    {
        let e = all[i].0;
        let name = all[i].1.1.clone();
        let spawn = all[i].1.2.value;
        proof {
            lemma_scan_step(all@, f, i as int);
        }
        let alias = match entities.get_alias(&e) {
            Ok(a) => a,
            Err(err) => {
                let stop = Err(CommandExecutionError::from_registry(err));
                proof {
                    lemma_scan_stop(all@, f, i + 1);
                }
                return Err(stop);
            },
        };
        let room_alias = match entities.get_alias(&spawn) {
            Ok(a) => a,
            Err(_) => {
                let id = spawn.to_string();
                let stop = Ok(CommandResult::Query(QueryResult::new(cat2("Invalid room ID: ", id.as_str()))));
                proof {
                    lemma_scan_stop(all@, f, i + 1);
                }
                return Err(stop);
            },
        };
        let description = match entities.get_component::<Description>(&e) {
            Ok(Some(d)) => d,
            Ok(None) => {
                let mut answer = cat3("Cannot serialize ", what, " - missing description for '");
                answer.append(alias.as_str());
                answer.append("'");
                let stop = Ok(CommandResult::Query(QueryResult::new(answer)));
                proof {
                    lemma_scan_stop(all@, f, i + 1);
                }
                return Err(stop);
            },
            Err(err) => {
                return Err(Err(CommandExecutionError::from_registry(err)));
            },
        };
        let ghost prev = keyed_views(records@);
        records.push((e, ItemData { alias, name: name.text, description: description.text, spawn_location: room_alias }));
        assert(keyed_views(records@) =~= prev.push(keyed_views(records@).last()));
        i = i + 1;
    }
    assert(all@.take(all.len() as int) =~= all@);
    Ok(records)
}

/// The same records as NPC records.
fn as_npc_records(items: Vec<(EntityId, ItemData)>) -> (r: Vec<(EntityId, NpcData)>)
    ensures
        keyed_views(r@) == keyed_views(items@),
{
    let mut items = items;
    let mut r: Vec<(EntityId, NpcData)> = Vec::new();
    let ghost all = keyed_views(items@);
    let mut rest: Vec<(EntityId, ItemData)> = Vec::new();
    while items.len() > 0
        invariant
            keyed_views(rest@) == all.skip(items.len() as int).reverse(),
            items.len() <= all.len(),
            keyed_views(items@) == all.take(items.len() as int),
        decreases items.len(),
    {
        let ghost n = items.len() as int;
        let ghost before = items@;
        let x = items.pop().unwrap();
        assert(keyed_views(before)[n - 1] == all.take(n)[n - 1]);
        let ghost prev = keyed_views(rest@);
        rest.push(x);
        assert(keyed_views(rest@) =~= prev.push(all[n - 1]));
        assert(all.skip(n - 1).reverse() =~= all.skip(n).reverse().push(all[n - 1]));
        assert(keyed_views(items@) =~= all.take(n - 1));
    }
    assert(all.skip(0) =~= all);
    let ghost rev = keyed_views(rest@);
    while rest.len() > 0
        invariant
            rev == all.reverse(),
            rest.len() <= rev.len(),
            keyed_views(rest@) == rev.take(rest.len() as int),
            keyed_views(r@) == all.take(all.len() - rest.len()),
        decreases rest.len(),
    {
        let ghost n = rest.len() as int;
        let ghost before = rest@;
        let (e, d) = rest.pop().unwrap();
        assert(keyed_views(before)[n - 1] == rev.take(n)[n - 1]);
        let ghost prev = keyed_views(r@);
        r.push((e, NpcData { alias: d.alias, name: d.name, description: d.description, spawn_location: d.spawn_location }));
        assert(keyed_views(rest@) =~= rev.take(n - 1));
        assert(rev[n - 1] == all[all.len() - n]);
        assert(keyed_views(r@) =~= prev.push(all[all.len() - n]));
        assert(all.take(all.len() - n + 1) =~= all.take(all.len() - n).push(all[all.len() - n]));
    }
    assert(all.take(all.len() as int) =~= all);
    r
}

pub(crate) fn handle_save(
    context: &SessionContext,
    entities: &EntityRegistry,
    rooms: &RoomGraph,
    target: SaveTarget,
    path: String,
) -> (r: Result<CommandResult, CommandExecutionError>)
    ensures
        save_outcome(entities, rooms, *context, target, path@, outcome(r)),
{
    if !context.is_admin {
        return Ok(CommandResult::Unauthorized);
    }
    if contains(path.as_str(), "..") {
        return Ok(CommandResult::Query(QueryResult::new(cat2("Invalid path: ", path.as_str()))));
    }
    let file = cat2("data/", path.as_str());
    match target {
        SaveTarget::Rooms => match room_records(entities, rooms) {
            Ok(records) => Ok(CommandResult::Save(SaveRequest::Rooms(file, records))),
            Err(stop) => stop,
        },
        SaveTarget::Items => match entity_records::<Item>(entities, "items") {
            Ok(records) => Ok(CommandResult::Save(SaveRequest::Items(file, records))),
            Err(stop) => stop,
        },
        SaveTarget::Npcs => match entity_records::<Npc>(entities, "NPCs") {
            Ok(records) => Ok(CommandResult::Save(SaveRequest::Npcs(file, as_npc_records(records)))),
            Err(stop) => stop,
        },
    }
}

/// `save rooms` keeps the room graph: when it collects records, there is exactly one
/// record for each room of the graph, and the record of a room carries the room's alias,
/// name and description and the exits that the room has in the graph, so seeding from the
/// records links the rooms as they were.
pub proof fn law_saved_rooms_keep_exits(
    reg: &EntityRegistry,
    graph: &RoomGraph,
    ctx: SessionContext,
    path: Seq<char>,
    file: Seq<char>,
    records: Seq<(RoomId, RoomDataView)>,
)
    requires
        save_outcome(reg, graph, ctx, SaveTarget::Rooms, path,
            Ok(CommandResultView::Save(SaveRequestView::Rooms(file, records)))),
    ensures
        forall|i: int| 0 <= i < records.len() ==> graph@.contains_key(#[trigger] records[i].0)
            && records[i].1.exits == graph@[records[i].0]@,
        forall|i: int| 0 <= i < records.len() ==> {
            let e = (#[trigger] records[i].0).entity;
            &&& reg.aliases().contains_key(e) && records[i].1.alias == reg.aliases()[e]
            &&& reg.table(ComponentKind::Name).contains_key(e)
                && records[i].1.name == text_of(reg.table(ComponentKind::Name)[e])
            &&& reg.table(ComponentKind::Description).contains_key(e)
                && records[i].1.description == text_of(reg.table(ComponentKind::Description)[e])
        },
        forall|id: RoomId| #[trigger] graph@.contains_key(id) ==> exists|i: int| 0 <= i < records.len() && records[i].0 == id,
        forall|i: int, j: int| 0 <= i < j < records.len() ==> records[i].0 != records[j].0,
{
    let f = |row: (RoomId, RoomGraphNode)| room_record(reg, row);
    let order = choose|order: Seq<(RoomId, RoomGraphNode)>| #[trigger] lists_rooms(graph, order)
        && Ok::<CommandResultView, Seq<char>>(CommandResultView::Save(SaveRequestView::Rooms(file, records))) == scanned(
            scan(order, f),
            |records: Seq<(RoomId, RoomDataView)>| SaveRequestView::Rooms("data/"@ + path, records),
        );
    if scan(order, f) is Err {
        lemma_scan_err(order, f);
        let i = choose|i: int| 0 <= i < order.len() && #[trigger] f(order[i]) == Err::<(RoomId, RoomDataView), Stop>(scan(order, f)->Err_0);
        assert(f(order[i]) == room_record(reg, order[i]));
    }
    lemma_scan_ok(order, f);
    assert(scan(order, f)->Ok_0 == records);
    assert forall|i: int| 0 <= i < records.len() implies graph@.contains_key(#[trigger] records[i].0)
        && records[i].1.exits == graph@[records[i].0]@ by {
        assert(f(order[i]) == Ok::<(RoomId, RoomDataView), Stop>(records[i]));
    }
    assert forall|i: int| 0 <= i < records.len() implies {
        let e = (#[trigger] records[i].0).entity;
        &&& reg.aliases().contains_key(e) && records[i].1.alias == reg.aliases()[e]
        &&& reg.table(ComponentKind::Name).contains_key(e)
            && records[i].1.name == text_of(reg.table(ComponentKind::Name)[e])
        &&& reg.table(ComponentKind::Description).contains_key(e)
            && records[i].1.description == text_of(reg.table(ComponentKind::Description)[e])
    } by {
        assert(f(order[i]) == Ok::<(RoomId, RoomDataView), Stop>(records[i]));
    }
    assert forall|id: RoomId| #[trigger] graph@.contains_key(id) implies exists|i: int| 0 <= i < records.len() && records[i].0 == id by {
        let i = choose|i: int| 0 <= i < order.len() && order[i].0 == id;
        assert(f(order[i]) == Ok::<(RoomId, RoomDataView), Stop>(records[i]));
    }
    assert forall|i: int, j: int| 0 <= i < j < records.len() implies records[i].0 != records[j].0 by {
        assert(f(order[i]) == Ok::<(RoomId, RoomDataView), Stop>(records[i]));
        assert(f(order[j]) == Ok::<(RoomId, RoomDataView), Stop>(records[j]));
    }
}

/// The records describe exactly the entities that have a marker of kind `k`, a name and a
/// spawn location, each once: with its alias, its name, its description and the alias of
/// its spawn room.
pub open spec fn records_match_entities(reg: &EntityRegistry, k: ComponentKind, records: Seq<(EntityId, EntityDataView)>) -> bool {
    &&& forall|i: int| 0 <= i < records.len() ==> {
        let e = (#[trigger] records[i].0);
        &&& reg.table(k).contains_key(e)
        &&& reg.aliases().contains_key(e) && records[i].1.alias == reg.aliases()[e]
        &&& reg.table(ComponentKind::Name).contains_key(e)
            && records[i].1.name == text_of(reg.table(ComponentKind::Name)[e])
        &&& reg.table(ComponentKind::Description).contains_key(e)
            && records[i].1.description == text_of(reg.table(ComponentKind::Description)[e])
        &&& reg.table(ComponentKind::SpawnLocation).contains_key(e)
        &&& reg.table(ComponentKind::SpawnLocation)[e] matches ComponentValue::SpawnLocation(room)
            && reg.aliases().contains_key(room) && records[i].1.spawn_location == reg.aliases()[room]
    }
    &&& forall|e: EntityId| #[trigger] reg.table(k).contains_key(e) && reg.table(ComponentKind::Name).contains_key(e)
        && reg.table(ComponentKind::SpawnLocation).contains_key(e) ==> exists|i: int| 0 <= i < records.len() && records[i].0 == e
    &&& forall|i: int, j: int| 0 <= i < j < records.len() ==> records[i].0 != records[j].0
}

/// Scanning the listed entities of marker kind `T` into records, when it succeeds, gives
/// records that match the entities.
proof fn lemma_saved_entities<T: ComponentStorage>(
    reg: &EntityRegistry,
    rows: Seq<(EntityId, (T, Name, SpawnLocation))>,
    what: Seq<char>,
    records: Seq<(EntityId, EntityDataView)>,
)
    requires
        lists3(rows, reg.table(T::kind()), reg.table(ComponentKind::Name), reg.table(ComponentKind::SpawnLocation)),
        scan(rows, |row: (EntityId, (T, Name, SpawnLocation))| entity_record(reg, row.0, row.1.1@, row.1.2.value, what))
            == Ok::<Seq<(EntityId, EntityDataView)>, Stop>(records),
    ensures
        records_match_entities(reg, T::kind(), records),
{
    let f = |row: (EntityId, (T, Name, SpawnLocation))| entity_record(reg, row.0, row.1.1@, row.1.2.value, what);
    lemma_scan_ok(rows, f);
    assert forall|i: int| 0 <= i < records.len() implies {
        let e = (#[trigger] records[i].0);
        &&& reg.table(T::kind()).contains_key(e)
        &&& reg.aliases().contains_key(e) && records[i].1.alias == reg.aliases()[e]
        &&& reg.table(ComponentKind::Name).contains_key(e)
            && records[i].1.name == text_of(reg.table(ComponentKind::Name)[e])
        &&& reg.table(ComponentKind::Description).contains_key(e)
            && records[i].1.description == text_of(reg.table(ComponentKind::Description)[e])
        &&& reg.table(ComponentKind::SpawnLocation).contains_key(e)
        &&& reg.table(ComponentKind::SpawnLocation)[e] matches ComponentValue::SpawnLocation(room)
            && reg.aliases().contains_key(room) && records[i].1.spawn_location == reg.aliases()[room]
    } by {
        assert(f(rows[i]) == Ok::<(EntityId, EntityDataView), Stop>(records[i]));
        assert(reg.table(ComponentKind::Name).contains_key(rows[i].0));
    }
    assert forall|e: EntityId| #[trigger] reg.table(T::kind()).contains_key(e) && reg.table(ComponentKind::Name).contains_key(e)
        && reg.table(ComponentKind::SpawnLocation).contains_key(e) implies exists|i: int| 0 <= i < records.len() && records[i].0 == e by {
        let i = choose|i: int| 0 <= i < rows.len() && rows[i].0 == e;
        assert(f(rows[i]) == Ok::<(EntityId, EntityDataView), Stop>(records[i]));
    }
    assert forall|i: int, j: int| 0 <= i < j < records.len() implies records[i].0 != records[j].0 by {
        assert(f(rows[i]) == Ok::<(EntityId, EntityDataView), Stop>(records[i]));
        assert(f(rows[j]) == Ok::<(EntityId, EntityDataView), Stop>(records[j]));
    }
}

/// A scan whose refusals are never a save request, and whose outcome is one, succeeded.
proof fn lemma_scanned_save<A, B>(items: Seq<A>, f: spec_fn(A) -> Result<B, Stop>, request: spec_fn(Seq<B>) -> SaveRequestView, what: SaveRequestView)
    requires
        forall|a: A| #[trigger] f(a) is Err ==> !(f(a)->Err_0 matches Ok(CommandResultView::Save(_))),
        scanned(scan(items, f), request) == Ok::<CommandResultView, Seq<char>>(CommandResultView::Save(what)),
    ensures
        scan(items, f) is Ok,
        request(scan(items, f)->Ok_0) == what,
{
    if scan(items, f) is Err {
        lemma_scan_err(items, f);
        let i = choose|i: int| 0 <= i < items.len() && #[trigger] f(items[i]) == Err::<B, Stop>(scan(items, f)->Err_0);
        assert(f(items[i]) is Err);
    }
}

/// `save items` collects, when it collects records, exactly one record for each item with a
/// name and a spawn location, carrying its alias, name, description and the alias of its
/// spawn room.
pub proof fn law_saved_items_match_registry(
    reg: &EntityRegistry,
    graph: &RoomGraph,
    ctx: SessionContext,
    path: Seq<char>,
    file: Seq<char>,
    records: Seq<(EntityId, EntityDataView)>,
)
    requires
        save_outcome(reg, graph, ctx, SaveTarget::Items, path,
            Ok(CommandResultView::Save(SaveRequestView::Items(file, records)))),
    ensures
        records_match_entities(reg, ComponentKind::Item, records),
{
    let f = |row: (EntityId, (Item, Name, SpawnLocation))| entity_record(reg, row.0, row.1.1@, row.1.2.value, "items"@);
    let g = |records: Seq<(EntityId, EntityDataView)>| SaveRequestView::Items("data/"@ + path, records);
    let rows = choose|rows: Seq<(EntityId, (Item, Name, SpawnLocation))>| #[trigger] lists3(
        rows,
        reg.table(ComponentKind::Item),
        reg.table(ComponentKind::Name),
        reg.table(ComponentKind::SpawnLocation),
    ) && Ok::<CommandResultView, Seq<char>>(CommandResultView::Save(SaveRequestView::Items(file, records))) == scanned(scan(rows, f), g);
    lemma_scanned_save(rows, f, g, SaveRequestView::Items(file, records));
    lemma_saved_entities(reg, rows, "items"@, records);
}

/// `save npcs` collects, when it collects records, exactly one record for each NPC with a
/// name and a spawn location, carrying its alias, name, description and the alias of its
/// spawn room.
pub proof fn law_saved_npcs_match_registry(
    reg: &EntityRegistry,
    graph: &RoomGraph,
    ctx: SessionContext,
    path: Seq<char>,
    file: Seq<char>,
    records: Seq<(EntityId, EntityDataView)>,
)
    requires
        save_outcome(reg, graph, ctx, SaveTarget::Npcs, path,
            Ok(CommandResultView::Save(SaveRequestView::Npcs(file, records)))),
    ensures
        records_match_entities(reg, ComponentKind::Npc, records),
{
    let f = |row: (EntityId, (Npc, Name, SpawnLocation))| entity_record(reg, row.0, row.1.1@, row.1.2.value, "NPCs"@);
    let g = |records: Seq<(EntityId, EntityDataView)>| SaveRequestView::Npcs("data/"@ + path, records);
    let rows = choose|rows: Seq<(EntityId, (Npc, Name, SpawnLocation))>| #[trigger] lists3(
        rows,
        reg.table(ComponentKind::Npc),
        reg.table(ComponentKind::Name),
        reg.table(ComponentKind::SpawnLocation),
    ) && Ok::<CommandResultView, Seq<char>>(CommandResultView::Save(SaveRequestView::Npcs(file, records))) == scanned(scan(rows, f), g);
    lemma_scanned_save(rows, f, g, SaveRequestView::Npcs(file, records));
    lemma_saved_entities(reg, rows, "NPCs"@, records);
}

} // verus!
