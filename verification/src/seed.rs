//! Seeding the world from data-file records: rooms first, then items and NPCs placed in
//! them. Reading the files and the database work are the caller's.
use vstd::prelude::*;
use crate::command::SpawnTarget;
use crate::data::{DataLoadError, RoomData, RoomDataView, ItemData};
use crate::db::DatabaseError;
use crate::entities::{
    ComponentKind, ComponentValue, Description, EntityRegistry, EntityRegistryError, Item, Location, Name, Npc,
    SpawnLocation,
};
use crate::model::ids::{Alias, EntityId, RoomId};
use crate::model::rooms::{Direction, RoomGraph, RoomGraphNode};

verus! {

/// Why seeding stopped.
#[derive(Debug)]
pub enum SeedError {
    Database(DatabaseError),
    DataLoad(DataLoadError),
    EntityRegistry(EntityRegistryError),
    UnknownAlias(Alias),
}

/// The aliases after registering the rooms of `rows` in order.
pub open spec fn aliases_after(m: Map<EntityId, Seq<char>>, rows: Seq<(RoomId, RoomDataView)>) -> Map<EntityId, Seq<char>>
    decreases rows.len(),
{
    if rows.len() == 0 {
        m
    } else {
        aliases_after(m, rows.drop_last()).insert(rows.last().0.entity, rows.last().1.alias)
    }
}

/// The alias index after registering the rooms of `rows` in order.
pub open spec fn index_after(m: Map<Seq<char>, EntityId>, rows: Seq<(RoomId, RoomDataView)>) -> Map<Seq<char>, EntityId>
    decreases rows.len(),
{
    if rows.len() == 0 {
        m
    } else {
        index_after(m, rows.drop_last()).insert(rows.last().1.alias, rows.last().0.entity)
    }
}

/// The components of kind `k` (name or description) after giving the rooms of `rows` theirs.
pub open spec fn texts_after(m: Map<EntityId, ComponentValue>, k: ComponentKind, rows: Seq<(RoomId, RoomDataView)>) -> Map<EntityId, ComponentValue>
    decreases rows.len(),
{
    if rows.len() == 0 {
        m
    } else {
        let r = rows.last();
        texts_after(m, k, rows.drop_last()).insert(
            r.0.entity,
            if k == ComponentKind::Name { ComponentValue::Name(r.1.name) } else { ComponentValue::Description(r.1.description) },
        )
    }
}

/// The exits of every room after storing the rooms of `rows`.
pub open spec fn exits_after(m: Map<RoomId, Map<Direction, RoomId>>, rows: Seq<(RoomId, RoomDataView)>) -> Map<RoomId, Map<Direction, RoomId>>
    decreases rows.len(),
{
    if rows.len() == 0 {
        m
    } else {
        exits_after(m, rows.drop_last()).insert(rows.last().0, rows.last().1.exits)
    }
}

/// The exits of each room of a graph.
pub open spec fn graph_exits(graph: &RoomGraph) -> Map<RoomId, Map<Direction, RoomId>> {
    graph@.map_values(|n: RoomGraphNode| n@)
}

/// Row `i` can be registered after the rows before it: neither its identifier nor its
/// alias is taken.
pub open spec fn row_fits(reg: &EntityRegistry, rows: Seq<(RoomId, RoomDataView)>, i: int) -> bool {
    &&& !aliases_after(reg.aliases(), rows.take(i)).contains_key(rows[i].0.entity)
    &&& !index_after(reg.alias_index(), rows.take(i)).contains_key(rows[i].1.alias)
}

/// A copy of a list of exits.
fn copy_pairs(v: &Vec<(Direction, RoomId)>) -> (r: Vec<(Direction, RoomId)>)
    ensures
        r@ == v@,
{
    let mut r: Vec<(Direction, RoomId)> = Vec::new();
    let mut i: usize = 0;
    while i < v.len()
        invariant
            i <= v.len(),
            r@ == v@.take(i as int),
        decreases v.len() - i,
    {
        r.push(v[i]);
        assert(r@ =~= v@.take(i + 1));
        i = i + 1;
    }
    assert(v@.take(v.len() as int) =~= v@);
    r
}

pub struct RoomSeeder;

impl RoomSeeder {
    /// Registers each room of `rooms`, in order, under its identifier and alias, with its
    /// name and description, and stores its exits in the room graph. Stops at the first
    /// room whose identifier or alias is already registered.
    pub fn seed(rooms: Vec<(RoomId, RoomData)>, room_graph: &mut RoomGraph, entities: &mut EntityRegistry) -> (r: Result<(), SeedError>)
        ensures
            final(room_graph).starting_room() == old(room_graph).starting_room(),
            ({
                let rows = rooms@.map_values(|x: (RoomId, RoomData)| (x.0, x.1@));
                match r {
                    Ok(()) => {
                        &&& forall|i: int| 0 <= i < rows.len() ==> row_fits(old(entities), rows, i)
                        &&& final(entities).aliases() == aliases_after(old(entities).aliases(), rows)
                        &&& final(entities).alias_index() == index_after(old(entities).alias_index(), rows)
                        &&& final(entities).table(ComponentKind::Name) == texts_after(
                            old(entities).table(ComponentKind::Name),
                            ComponentKind::Name,
                            rows,
                        )
                        &&& final(entities).table(ComponentKind::Description) == texts_after(
                            old(entities).table(ComponentKind::Description),
                            ComponentKind::Description,
                            rows,
                        )
                        &&& forall|k: ComponentKind| k != ComponentKind::Name && k != ComponentKind::Description
                            ==> #[trigger] final(entities).table(k) == old(entities).table(k)
                        &&& graph_exits(final(room_graph)) == exits_after(graph_exits(old(room_graph)), rows)
                    },
                    Err(e) => exists|k: int| {
                        &&& 0 <= k < rows.len()
                        &&& forall|i: int| 0 <= i < k ==> row_fits(old(entities), rows, i)
                        &&& !#[trigger] row_fits(old(entities), rows, k)
                        &&& (e matches SeedError::EntityRegistry(err) && (if aliases_after(old(entities).aliases(), rows.take(k)).contains_key(rows[k].0.entity) {
                            err == EntityRegistryError::DuplicateSpawn(rows[k].0.entity)
                        } else {
                            (err matches EntityRegistryError::DuplicateAlias(a) && a@ == rows[k].1.alias)
                        }))
                        &&& final(entities).aliases() == if aliases_after(old(entities).aliases(), rows.take(k)).contains_key(rows[k].0.entity) {
                            aliases_after(old(entities).aliases(), rows.take(k))
                        } else {
                            aliases_after(old(entities).aliases(), rows.take(k)).insert(rows[k].0.entity, rows[k].1.alias)
                        }
                        &&& final(entities).alias_index() == index_after(old(entities).alias_index(), rows.take(k))
                        &&& final(entities).table(ComponentKind::Name) == texts_after(
                            old(entities).table(ComponentKind::Name),
                            ComponentKind::Name,
                            rows.take(k),
                        )
                        &&& final(entities).table(ComponentKind::Description) == texts_after(
                            old(entities).table(ComponentKind::Description),
                            ComponentKind::Description,
                            rows.take(k),
                        )
                        &&& forall|j: ComponentKind| j != ComponentKind::Name && j != ComponentKind::Description
                            ==> #[trigger] final(entities).table(j) == old(entities).table(j)
                        &&& graph_exits(final(room_graph)) == exits_after(graph_exits(old(room_graph)), rows.take(k))
                    },
                }
            }),
    {
        let ghost rows = rooms@.map_values(|x: (RoomId, RoomData)| (x.0, x.1@));
        let ghost e0 = *old(entities);
        let ghost g0 = graph_exits(old(room_graph));
        let mut i: usize = 0;
        assert(rows.take(0) =~= Seq::<(RoomId, RoomDataView)>::empty());
        assert(graph_exits(room_graph) =~= g0);
        while i < rooms.len()
            invariant
                i <= rooms.len(),
                rows == rooms@.map_values(|x: (RoomId, RoomData)| (x.0, x.1@)),
                e0 == *old(entities),
                g0 == graph_exits(old(room_graph)),
                room_graph.starting_room() == old(room_graph).starting_room(),
                forall|j: int| 0 <= j < i ==> row_fits(&e0, rows, j),
                entities.aliases() == aliases_after(e0.aliases(), rows.take(i as int)),
                entities.alias_index() == index_after(e0.alias_index(), rows.take(i as int)),
                entities.table(ComponentKind::Name) == texts_after(e0.table(ComponentKind::Name), ComponentKind::Name, rows.take(i as int)),
                entities.table(ComponentKind::Description) == texts_after(
                    e0.table(ComponentKind::Description),
                    ComponentKind::Description,
                    rows.take(i as int),
                ),
                forall|k: ComponentKind| k != ComponentKind::Name && k != ComponentKind::Description
                    ==> #[trigger] entities.table(k) == e0.table(k),
                graph_exits(room_graph) == exits_after(g0, rows.take(i as int)),
            decreases rooms.len() - i,
        {
            let id = rooms[i].0;
            let alias = rooms[i].1.alias.clone();
            let name = rooms[i].1.name.clone();
            let description = rooms[i].1.description.clone();
            let ghost row = rows[i as int];
            assert(rows.take(i + 1).drop_last() =~= rows.take(i as int));
            assert(rows.take(i + 1).last() == row);
            let ghost before = *entities;
            let spawned = entities.spawn(Some(id.as_entity()), alias);
            let entity = match spawned {
                Ok(e) => e,
                Err(err) => {
                    let ghost err_copy = err;
                    let r = Err(SeedError::EntityRegistry(err));
                    proof {
                        assert(!row_fits(old(entities), rows, i as int));
                        assert(forall|j: int| 0 <= j < i ==> row_fits(old(entities), rows, j));
                        assert forall|j: ComponentKind| j != ComponentKind::Name && j != ComponentKind::Description
                            implies #[trigger] entities.table(j) == old(entities).table(j) by {
                            assert(entities.table(j) == before.table(j));
                        }
                        assert(entities.table(ComponentKind::Name) == before.table(ComponentKind::Name));
                        assert(entities.table(ComponentKind::Description) == before.table(ComponentKind::Description));
                        if aliases_after(old(entities).aliases(), rows.take(i as int)).contains_key(rows[i as int].0.entity) {
                            assert(err_copy == EntityRegistryError::DuplicateSpawn(rows[i as int].0.entity));
                        } else {
                            assert(err_copy matches EntityRegistryError::DuplicateAlias(a) && a@ == rows[i as int].1.alias);
                        }
                    }
                    return r;
                },
            };
            let ghost after_spawn = *entities;
            match entities.update_component(&entity, Name { text: name }) {
                Ok(()) => {},
                Err(err) => {
                    return Err(SeedError::EntityRegistry(err));
                },
            }
            let ghost after_name = *entities;
            match entities.update_component(&entity, Description { text: description }) {
                Ok(()) => {},
                Err(err) => {
                    return Err(SeedError::EntityRegistry(err));
                },
            }
            let node = RoomGraphNode::new(copy_pairs(&rooms[i].1.exits));
            let ghost gb = graph_exits(room_graph);
            room_graph.update_room(RoomId::from_entity(entity), node);
            proof {
                assert(graph_exits(room_graph) =~= gb.insert(row.0, row.1.exits));
                assert forall|k: ComponentKind| k != ComponentKind::Name && k != ComponentKind::Description
                    implies #[trigger] entities.table(k) == e0.table(k) by {
                    assert(after_spawn.table(k) == before.table(k));
                }
                assert(after_spawn.table(ComponentKind::Name) == before.table(ComponentKind::Name));
                assert(after_spawn.table(ComponentKind::Description) == before.table(ComponentKind::Description));
            }
            i = i + 1;
        }
        assert(rows.take(rooms.len() as int) =~= rows);
        Ok(())
    }
}

pub struct ItemSeeder;

impl ItemSeeder {
    /// The room where an item spawns: the entity that its spawn-location alias names.
    pub fn spawn_room(entities: &EntityRegistry, item: &ItemData) -> (r: Result<EntityId, SeedError>)
        ensures
            match r {
                Ok(room) => entities.alias_index().contains_key(item.spawn_location@)
                    && room == entities.alias_index()[item.spawn_location@],
                Err(e) => !entities.alias_index().contains_key(item.spawn_location@)
                    && (e matches SeedError::UnknownAlias(a) && a@ == item.spawn_location@),
            },
    {
        match entities.resolve_alias(&item.spawn_location) {
            Some(room) => Ok(room),
            None => Err(SeedError::UnknownAlias(item.spawn_location.clone())),
        }
    }

    /// Registers an item (or, with `SpawnTarget::Npc`, an NPC) under its identifier and
    /// alias, with its marker, name, description, current location and spawn location
    /// `room`.
    pub fn place(
        entities: &mut EntityRegistry,
        id: EntityId,
        item: ItemData,
        location: Location,
        room: EntityId,
        kind: SpawnTarget,
    ) -> (r: Result<(), SeedError>)
        ensures
            old(entities).aliases().contains_key(id) ==> ((r matches Err(SeedError::EntityRegistry(e))
                && e == EntityRegistryError::DuplicateSpawn(id)) && final(entities).aliases() == old(entities).aliases()),
            !old(entities).aliases().contains_key(id) && old(entities).alias_index().contains_key(item.alias@) ==> (
                (r matches Err(SeedError::EntityRegistry(e)) && (e matches EntityRegistryError::DuplicateAlias(a)
                && a@ == item.alias@)) && final(entities).aliases() == old(entities).aliases().insert(id, item.alias@)),
            r is Err ==> final(entities).same_tables(old(entities)) && final(entities).alias_index() == old(entities).alias_index(),
            !old(entities).aliases().contains_key(id) && !old(entities).alias_index().contains_key(item.alias@) ==> {
                &&& r is Ok
                &&& final(entities).aliases() == old(entities).aliases().insert(id, item.alias@)
                &&& final(entities).alias_index() == old(entities).alias_index().insert(item.alias@, id)
                &&& final(entities).table(ComponentKind::Name) == old(entities).table(ComponentKind::Name).insert(id, ComponentValue::Name(item.name@))
                &&& final(entities).table(ComponentKind::Description) == old(entities).table(ComponentKind::Description).insert(
                    id,
                    ComponentValue::Description(item.description@),
                )
                &&& final(entities).table(ComponentKind::Location) == old(entities).table(ComponentKind::Location).insert(
                    id,
                    ComponentValue::Location(location.value),
                )
                &&& final(entities).table(ComponentKind::SpawnLocation) == old(entities).table(ComponentKind::SpawnLocation).insert(
                    id,
                    ComponentValue::SpawnLocation(room),
                )
                &&& final(entities).table(marker_kind(kind)) == old(entities).table(marker_kind(kind)).insert(id, marker_value(kind))
                &&& forall|k: ComponentKind| k != ComponentKind::Name && k != ComponentKind::Description && k != ComponentKind::Location
                    && k != ComponentKind::SpawnLocation && k != marker_kind(kind) ==> #[trigger] final(entities).table(k) == old(entities).table(k)
            },
    {
        let ghost e0 = *old(entities);
        let entity = match entities.spawn(Some(id), item.alias) {
            Ok(e) => e,
            Err(err) => {
                return Err(SeedError::EntityRegistry(err));
            },
        };
        let ghost e1 = *entities;
        let marked = match kind {
            SpawnTarget::Item => entities.update_component(&entity, Item),
            SpawnTarget::Npc => entities.update_component(&entity, Npc),
        };
        match marked {
            Ok(()) => {},
            Err(err) => {
                return Err(SeedError::EntityRegistry(err));
            },
        }
        let ghost e2 = *entities;
        match entities.update_component(&entity, Name { text: item.name }) {
            Ok(()) => {},
            Err(err) => {
                return Err(SeedError::EntityRegistry(err));
            },
        }
        let ghost e3 = *entities;
        match entities.update_component(&entity, Description { text: item.description }) {
            Ok(()) => {},
            Err(err) => {
                return Err(SeedError::EntityRegistry(err));
            },
        }
        let ghost e4 = *entities;
        match entities.update_component(&entity, location) {
            Ok(()) => {},
            Err(err) => {
                return Err(SeedError::EntityRegistry(err));
            },
        }
        let ghost e5 = *entities;
        match entities.update_component(&entity, SpawnLocation { value: room }) {
            Ok(()) => {},
            Err(err) => {
                return Err(SeedError::EntityRegistry(err));
            },
        }
        proof {
            assert forall|k: ComponentKind| k != ComponentKind::Name && k != ComponentKind::Description && k != ComponentKind::Location
                && k != ComponentKind::SpawnLocation && k != marker_kind(kind) implies #[trigger] entities.table(k) == old(entities).table(k) by {
                assert(e1.table(k) == e0.table(k));
            }
            assert(e1.table(marker_kind(kind)) == e0.table(marker_kind(kind)));
            assert(e1.table(ComponentKind::Name) == e0.table(ComponentKind::Name));
            assert(e1.table(ComponentKind::Description) == e0.table(ComponentKind::Description));
            assert(e1.table(ComponentKind::Location) == e0.table(ComponentKind::Location));
            assert(e1.table(ComponentKind::SpawnLocation) == e0.table(ComponentKind::SpawnLocation));
        }
        Ok(())
    }
}

/// The marker component kind for a seeded entity.
pub open spec fn marker_kind(kind: SpawnTarget) -> ComponentKind {
    match kind {
        SpawnTarget::Item => ComponentKind::Item,
        SpawnTarget::Npc => ComponentKind::Npc,
    }
}

/// The marker component for a seeded entity.
pub open spec fn marker_value(kind: SpawnTarget) -> ComponentValue {
    match kind {
        SpawnTarget::Item => ComponentValue::Item,
        SpawnTarget::Npc => ComponentValue::Npc,
    }
}

} // verus!
