//! Administrator commands that edit the world: components, room links, new rooms and
//! spawned entities.
use vstd::prelude::*;
use crate::model::ids::{uuid_text, uuid_version, Alias, EntityId, RoomId};
use crate::model::rooms::{direction_name, exits_from_pairs, lemma_exit_order, opposite_of, Direction, RoomGraph, RoomGraphNode};
use crate::entities::{
    law_alias_index_names_registered, spawned_as, ComponentKind, ComponentValue, Description, EntityRegistry, EntityRegistryError, Item, Location, Name, Npc,
    SpawnLocation,
};
use crate::session::SessionContext;
use crate::text::{cat2, cat3, debug_text, join, seq_join, views};
use super::{
    current_position, get_current_position, query_outcome, registry_failure_text, unchanged, component_set,
    CommandExecutionError, CommandResult, CommandResultView, EditField, EditTarget, EditTargetView, QueryResult,
    SpawnTarget, outcome,
};

verus! {

/// The component kind that editing a field sets.
pub open spec fn edit_kind(f: EditField) -> ComponentKind {
    match f {
        EditField::Description => ComponentKind::Description,
        EditField::Name => ComponentKind::Name,
    }
}

/// The component that editing a field to `content` sets.
pub open spec fn edit_value(f: EditField, content: Seq<char>) -> ComponentValue {
    match f {
        EditField::Description => ComponentValue::Description(content),
        EditField::Name => ComponentValue::Name(content),
    }
}

/// The answer after editing a field of the entity with alias `alias`.
pub open spec fn edit_answer(f: EditField, alias: Seq<char>) -> Seq<char> {
    match f {
        EditField::Description => "Updated description of '"@ + alias + "'"@,
        EditField::Name => "Updated name of '"@ + alias + "'"@,
    }
}

/// Setting field `f` of the registered entity `e` (shown by `alias`) to `content`.
pub open spec fn edited(
    old_reg: &EntityRegistry,
    reg: &EntityRegistry,
    e: EntityId,
    alias: Seq<char>,
    f: EditField,
    content: Seq<char>,
    o: Result<CommandResultView, Seq<char>>,
) -> bool {
    &&& component_set(reg, old_reg, edit_kind(f), e, edit_value(f, content))
    &&& o == query_outcome(edit_answer(f, alias))
}

/// `edit`: an administrator sets the name or description of the current room or of the
/// entity with a given alias.
pub open spec fn edit_outcome(
    old_reg: &EntityRegistry,
    reg: &EntityRegistry,
    ctx: SessionContext,
    target: EditTargetView,
    f: EditField,
    content: Seq<char>,
    o: Result<CommandResultView, Seq<char>>,
) -> bool {
    if !ctx.is_admin {
        o == Ok::<CommandResultView, Seq<char>>(CommandResultView::Unauthorized) && unchanged(reg, old_reg)
    } else {
        match target {
            EditTargetView::Room => match current_position(old_reg, ctx.player_id) {
                Err(m) => o == Err::<CommandResultView, Seq<char>>(m) && unchanged(reg, old_reg),
                Ok(l) => if !old_reg.aliases().contains_key(l.value) {
                    o == Err::<CommandResultView, Seq<char>>(registry_failure_text(EntityRegistryError::UnknownEntity(l.value)))
                        && unchanged(reg, old_reg)
                } else {
                    edited(old_reg, reg, l.value, old_reg.aliases()[l.value], f, content, o)
                },
            },
            EditTargetView::Entity(a) => if !old_reg.alias_index().contains_key(a) {
                o == query_outcome("Could not resolve alias '"@ + a + "'"@) && unchanged(reg, old_reg)
            } else {
                edited(old_reg, reg, old_reg.alias_index()[a], a, f, content, o)
            },
        }
    }
}

/// Sets the field of `entity` and answers with its alias.
fn set_field(entities: &mut EntityRegistry, entity: EntityId, alias: &Alias, field: EditField, content: String) -> (r: Result<CommandResult, CommandExecutionError>)
    requires
        old(entities).aliases().contains_key(entity),
    ensures
        edited(old(entities), final(entities), entity, alias@, field, content@, outcome(r)),
{
    let ghost c = content@;
    let updated = match field {
        EditField::Description => entities.update_component(&entity, Description { text: content }),
        EditField::Name => entities.update_component(&entity, Name { text: content }),
    };
    match updated {
        Ok(()) => {},
        Err(e) => {
            return Err(CommandExecutionError::from_registry(e));
        },
    }
    let answer = match field {
        EditField::Description => cat3("Updated description of '", alias.as_str(), "'"),
        EditField::Name => cat3("Updated name of '", alias.as_str(), "'"),
    };
    Ok(CommandResult::Query(QueryResult::new(answer)))
}

pub(crate) fn handle_edit(
    context: &SessionContext,
    entities: &mut EntityRegistry,
    target: EditTarget,
    field: EditField,
    content: String,
) -> (r: Result<CommandResult, CommandExecutionError>)
    ensures
        edit_outcome(old(entities), final(entities), *context, target@, field, content@, outcome(r)),
{
    if !context.is_admin {
        return Ok(CommandResult::Unauthorized);
    }
    let (entity_id, alias) = match target {
        EditTarget::Room => {
            let location = get_current_position(context, entities)?;
            match entities.get_alias(&location.value) {
                Ok(a) => (location.value, a),
                Err(e) => {
                    return Err(CommandExecutionError::from_registry(e));
                },
            }
        },
        EditTarget::Entity(alias) => match entities.resolve_alias(&alias) {
            Some(id) => (id, alias),
            None => {
                return Ok(CommandResult::Query(QueryResult::new(cat3("Could not resolve alias '", alias.as_str(), "'"))));
            },
        },
    };
    set_field(entities, entity_id, &alias, field, content)
}

/// The answer when the current room is missing from the room graph.
pub open spec fn no_current_room(cur: RoomId) -> Seq<char> {
    "Could not get current room (ID: "@ + uuid_text(cur.entity.uuid) + ")"@
}

/// `link`: an administrator links the current room through exit `d` to the room with
/// alias `target`, and that room back through the opposite exit. When the target is the
/// current room itself, only the back link is kept.
pub open spec fn link_outcome(
    reg: &EntityRegistry,
    old_graph: &RoomGraph,
    graph: &RoomGraph,
    ctx: SessionContext,
    d: Direction,
    target: Seq<char>,
    o: Result<CommandResultView, Seq<char>>,
) -> bool {
    if !ctx.is_admin {
        o == Ok::<CommandResultView, Seq<char>>(CommandResultView::Unauthorized) && graph@ == old_graph@
    } else {
        match current_position(reg, ctx.player_id) {
            Err(m) => o == Err::<CommandResultView, Seq<char>>(m) && graph@ == old_graph@,
            Ok(l) => {
                let cur = RoomId { entity: l.value };
                let opp = opposite_of(d);
                if !old_graph@.contains_key(cur) {
                    o == query_outcome(no_current_room(cur)) && graph@ == old_graph@
                } else if !reg.alias_index().contains_key(target) {
                    o == query_outcome("Unknown room alias: '"@ + target + "'"@) && graph@ == old_graph@
                } else {
                    let other = RoomId { entity: reg.alias_index()[target] };
                    if !old_graph@.contains_key(other) {
                        o == query_outcome(
                            "Could not get room with alias: '"@ + target + "' (ID: "@ + uuid_text(other.entity.uuid) + ")"@,
                        ) && graph@ == old_graph@
                    } else if old_graph@[cur]@.contains_key(d) {
                        o == query_outcome("Current room already has an exit to the "@ + direction_name(d))
                            && graph@ == old_graph@
                    } else if old_graph@[other]@.contains_key(opp) {
                        o == query_outcome("Destination room already has an exit to the "@ + direction_name(opp))
                            && graph@ == old_graph@
                    } else if !reg.aliases().contains_key(cur.entity) {
                        o == Err::<CommandResultView, Seq<char>>(registry_failure_text(EntityRegistryError::UnknownEntity(cur.entity)))
                            && graph@ == old_graph@
                    } else {
                        &&& graph@ == old_graph@.insert(cur, old_graph@[cur].with_exit(d, other))
                            .insert(other, old_graph@[other].with_exit(opp, cur))
                        &&& o == query_outcome(
                            "Linked '"@ + reg.aliases()[cur.entity] + "' to '"@ + reg.aliases()[other.entity] + "'"@,
                        )
                    }
                }
            },
        }
    }
}

pub(crate) fn handle_link(
    context: &SessionContext,
    entities: &EntityRegistry,
    rooms: &mut RoomGraph,
    direction: Direction,
    target: Alias,
) -> (r: Result<CommandResult, CommandExecutionError>)
    ensures
        final(rooms).starting_room() == old(rooms).starting_room(),
        link_outcome(entities, old(rooms), final(rooms), *context, direction, target@, outcome(r)),
{
    if !context.is_admin {
        return Ok(CommandResult::Unauthorized);
    }
    let location = get_current_position(context, entities)?;
    let current_room_id = RoomId::from_entity(location.value);
    let current_room = match rooms.get_room(&current_room_id) {
        Some(room) => room,
        None => {
            let id = current_room_id.to_string();
            return Ok(CommandResult::Query(QueryResult::new(cat3("Could not get current room (ID: ", id.as_str(), ")"))));
        },
    };
    let other_room_id = match entities.resolve_alias(&target) {
        Some(id) => RoomId::from_entity(id),
        None => {
            return Ok(CommandResult::Query(QueryResult::new(cat3("Unknown room alias: '", target.as_str(), "'"))));
        },
    };
    let other_room = match rooms.get_room(&other_room_id) {
        Some(room) => room,
        None => {
            let id = other_room_id.to_string();
            let mut answer = cat3("Could not get room with alias: '", target.as_str(), "' (ID: ");
            answer.append(id.as_str());
            answer.append(")");
            return Ok(CommandResult::Query(QueryResult::new(answer)));
        },
    };
    let opposite_direction = direction.opposite();
    if current_room.has_exit(&direction) {
        return Ok(CommandResult::Query(QueryResult::new(cat2("Current room already has an exit to the ", direction.name()))));
    }
    if other_room.has_exit(&opposite_direction) {
        return Ok(
            CommandResult::Query(QueryResult::new(cat2("Destination room already has an exit to the ", opposite_direction.name()))),
        );
    }
    let current_room_alias = match entities.get_alias(&current_room_id.as_entity()) {
        Ok(a) => a,
        Err(e) => {
            return Err(CommandExecutionError::from_registry(e));
        },
    };
    let other_room_alias = match entities.get_alias(&other_room_id.as_entity()) {
        Ok(a) => a,
        Err(e) => {
            return Err(CommandExecutionError::from_registry(e));
        },
    };
    let mut current_room = current_room;
    let mut other_room = other_room;
    current_room.set_exit(direction, other_room_id);
    other_room.set_exit(opposite_direction, current_room_id);
    let mut response = cat3("Linked '", current_room_alias.as_str(), "' to '");
    response.append(other_room_alias.as_str());
    response.append("'");
    rooms.update_room(current_room_id, current_room);
    rooms.update_room(other_room_id, other_room);
    Ok(CommandResult::Query(QueryResult::new(response)))
}

/// `unlink`: an administrator removes exit `d` of the current room and the opposite exit
/// of the room it led to.
pub open spec fn unlink_outcome(
    reg: &EntityRegistry,
    old_graph: &RoomGraph,
    graph: &RoomGraph,
    ctx: SessionContext,
    d: Direction,
    o: Result<CommandResultView, Seq<char>>,
) -> bool {
    if !ctx.is_admin {
        o == Ok::<CommandResultView, Seq<char>>(CommandResultView::Unauthorized) && graph@ == old_graph@
    } else {
        match current_position(reg, ctx.player_id) {
            Err(m) => o == Err::<CommandResultView, Seq<char>>(m) && graph@ == old_graph@,
            Ok(l) => {
                let cur = RoomId { entity: l.value };
                if !old_graph@.contains_key(cur) {
                    o == query_outcome(no_current_room(cur)) && graph@ == old_graph@
                } else if !old_graph@[cur]@.contains_key(d) {
                    o == query_outcome("Current room has no "@ + direction_name(d) + " exit."@) && graph@ == old_graph@
                } else {
                    let other = old_graph@[cur]@[d];
                    if !old_graph@.contains_key(other) {
                        o == Err::<CommandResultView, Seq<char>>(
                            "Could not get destination room with ID: "@ + uuid_text(other.entity.uuid),
                        ) && graph@ == old_graph@
                    } else if !reg.aliases().contains_key(cur.entity) {
                        o == Err::<CommandResultView, Seq<char>>(registry_failure_text(EntityRegistryError::UnknownEntity(cur.entity)))
                            && graph@ == old_graph@
                    } else if !reg.aliases().contains_key(other.entity) {
                        o == Err::<CommandResultView, Seq<char>>(registry_failure_text(EntityRegistryError::UnknownEntity(other.entity)))
                            && graph@ == old_graph@
                    } else {
                        &&& graph@ == old_graph@.insert(cur, old_graph@[cur].without_exit(d))
                            .insert(other, old_graph@[other].without_exit(opposite_of(d)))
                        &&& o == query_outcome(
                            "Removed link between '"@ + reg.aliases()[cur.entity] + "' and '"@ + reg.aliases()[other.entity] + "'"@,
                        )
                    }
                }
            },
        }
    }
}

pub(crate) fn handle_unlink(
    context: &SessionContext,
    entities: &EntityRegistry,
    rooms: &mut RoomGraph,
    direction: Direction,
) -> (r: Result<CommandResult, CommandExecutionError>)
    ensures
        final(rooms).starting_room() == old(rooms).starting_room(),
        unlink_outcome(entities, old(rooms), final(rooms), *context, direction, outcome(r)),
{
    if !context.is_admin {
        return Ok(CommandResult::Unauthorized);
    }
    let location = get_current_position(context, entities)?;
    let current_room_id = RoomId::from_entity(location.value);
    let current_room = match rooms.get_room(&current_room_id) {
        Some(room) => room,
        None => {
            let id = current_room_id.to_string();
            return Ok(CommandResult::Query(QueryResult::new(cat3("Could not get current room (ID: ", id.as_str(), ")"))));
        },
    };
    if !current_room.has_exit(&direction) {
        return Ok(CommandResult::Query(QueryResult::new(cat3("Current room has no ", direction.name(), " exit."))));
    }
    let other_room_id = match current_room.get_destination(direction) {
        Some(id) => id,
        None => {
            return Err(
                CommandExecutionError::Unrecoverable(
                    cat3("Could not get destination for ", direction.name(), " exit of current room."),
                ),
            );
        },
    };
    let other_room = match rooms.get_room(&other_room_id) {
        Some(room) => room,
        None => {
            let id = other_room_id.to_string();
            return Err(CommandExecutionError::Unrecoverable(cat2("Could not get destination room with ID: ", id.as_str())));
        },
    };
    let current_room_alias = match entities.get_alias(&current_room_id.as_entity()) {
        Ok(a) => a,
        Err(e) => {
            return Err(CommandExecutionError::from_registry(e));
        },
    };
    let other_room_alias = match entities.get_alias(&other_room_id.as_entity()) {
        Ok(a) => a,
        Err(e) => {
            return Err(CommandExecutionError::from_registry(e));
        },
    };
    let mut current_room = current_room;
    let mut other_room = other_room;
    current_room.remove_exit(&direction);
    other_room.remove_exit(&direction.opposite());
    let mut response = cat3("Removed link between '", current_room_alias.as_str(), "' and '");
    response.append(other_room_alias.as_str());
    response.append("'");
    rooms.update_room(current_room_id, current_room);
    rooms.update_room(other_room_id, other_room);
    Ok(CommandResult::Query(QueryResult::new(response)))
}

/// The message of the error when spawning finds the alias already taken.
pub open spec fn duplicate_alias_failure(alias: Seq<char>) -> Seq<char> {
    "Entity registry error: "@ + ("DuplicateAlias(Alias("@ + debug_text(alias) + "))"@)
}

/// `create` from room `cur` once the new room's identifier `id` is drawn. An identifier
/// that is already registered is refused with the registry's error and nothing changes.
/// Otherwise a new entity is registered for the room even when the alias is taken; then
/// the answer is the registry's error.
pub open spec fn created_as(
    old_reg: &EntityRegistry,
    reg: &EntityRegistry,
    old_graph: &RoomGraph,
    graph: &RoomGraph,
    cur: RoomId,
    d: Direction,
    target: Seq<char>,
    o: Result<CommandResultView, Seq<char>>,
    id: EntityId,
) -> bool {
    if old_reg.aliases().contains_key(id) {
        &&& reg.aliases() == old_reg.aliases()
        &&& reg.alias_index() == old_reg.alias_index()
        &&& graph@ == old_graph@
        &&& o == Err::<CommandResultView, Seq<char>>(registry_failure_text(EntityRegistryError::DuplicateSpawn(id)))
    } else {
        &&& reg.aliases() == old_reg.aliases().insert(id, target)
        &&& if old_reg.alias_index().contains_key(target) {
            &&& reg.alias_index() == old_reg.alias_index()
            &&& graph@ == old_graph@
            &&& o == Err::<CommandResultView, Seq<char>>(duplicate_alias_failure(target))
        } else {
            let new_room = RoomId { entity: id };
            &&& reg.alias_index() == old_reg.alias_index().insert(target, id)
            &&& graph@ == old_graph@.insert(cur, old_graph@[cur].with_exit(d, new_room))
                .insert(new_room, graph@[new_room])
            &&& graph@[new_room]@ == Map::<Direction, RoomId>::empty().insert(opposite_of(d), cur)
            &&& o == query_outcome("Created room '"@ + target + "' to the "@ + direction_name(d) + "."@)
        }
    }
}

/// `create`: an administrator creates a room with alias `target` through exit `d` of the
/// current room, linked back through the opposite exit, under a newly drawn identifier
/// (see `created_as`).
pub open spec fn create_outcome(
    old_reg: &EntityRegistry,
    reg: &EntityRegistry,
    old_graph: &RoomGraph,
    graph: &RoomGraph,
    ctx: SessionContext,
    d: Direction,
    target: Seq<char>,
    o: Result<CommandResultView, Seq<char>>,
) -> bool {
    if !ctx.is_admin {
        o == Ok::<CommandResultView, Seq<char>>(CommandResultView::Unauthorized) && unchanged(reg, old_reg)
            && graph@ == old_graph@
    } else {
        match current_position(old_reg, ctx.player_id) {
            Err(m) => o == Err::<CommandResultView, Seq<char>>(m) && unchanged(reg, old_reg) && graph@ == old_graph@,
            Ok(l) => {
                let cur = RoomId { entity: l.value };
                if !old_graph@.contains_key(cur) {
                    o == query_outcome(no_current_room(cur)) && unchanged(reg, old_reg) && graph@ == old_graph@
                } else if old_graph@[cur]@.contains_key(d) {
                    o == query_outcome("Current room already has an exit to the "@ + direction_name(d))
                        && unchanged(reg, old_reg) && graph@ == old_graph@
                } else {
                    &&& reg.same_tables(old_reg)
                    &&& forall|k: ComponentKind| #[trigger] reg.dirty_ids(k) == old_reg.dirty_ids(k)
                    &&& exists|id: EntityId| uuid_version(id.uuid) == 7
                        && #[trigger] created_as(old_reg, reg, old_graph, graph, cur, d, target, o, id)
                }
            },
        }
    }
}

pub(crate) fn handle_create(
    context: &SessionContext,
    entities: &mut EntityRegistry,
    rooms: &mut RoomGraph,
    direction: Direction,
    target: Alias,
) -> (r: Result<CommandResult, CommandExecutionError>)
    ensures
        final(rooms).starting_room() == old(rooms).starting_room(),
        create_outcome(old(entities), final(entities), old(rooms), final(rooms), *context, direction, target@, outcome(r)),
{
    if !context.is_admin {
        return Ok(CommandResult::Unauthorized);
    }
    let location = get_current_position(context, entities)?;
    let current_room_id = RoomId::from_entity(location.value);
    let current_room = match rooms.get_room(&current_room_id) {
        Some(room) => room,
        None => {
            let id = current_room_id.to_string();
            return Ok(CommandResult::Query(QueryResult::new(cat3("Could not get current room (ID: ", id.as_str(), ")"))));
        },
    };
    if current_room.has_exit(&direction) {
        return Ok(CommandResult::Query(QueryResult::new(cat2("Current room already has an exit to the ", direction.name()))));
    }
    let ghost target_text = target@;
    let spawned = entities.spawn(None, target.clone());
    let ghost drawn = choose|id: EntityId| uuid_version(id.uuid) == 7
        && spawned_as(old(entities), entities, target_text, spawned, id);
    let other_room_id = match spawned {
        Ok(id) => RoomId::from_entity(id),
        Err(e) => {
            let r = Err(CommandExecutionError::from_registry(e));
            proof {
                assert(created_as(old(entities), entities, old(rooms), rooms, current_room_id, direction, target_text, outcome(r), drawn));
            }
            return r;
        },
    };
    let mut current_room = current_room;
    let mut other_room = RoomGraphNode::new(Vec::new());
    current_room.set_exit(direction, other_room_id);
    other_room.set_exit(direction.opposite(), current_room_id);
    proof {
        assert(exits_from_pairs(Seq::<(Direction, RoomId)>::empty()) == Map::<Direction, RoomId>::empty());
    }
    let mut response = cat3("Created room '", target.as_str(), "' to the ");
    response.append(direction.name());
    response.append(".");
    rooms.update_room(current_room_id, current_room);
    rooms.update_room(other_room_id, other_room);
    let r = Ok(CommandResult::Query(QueryResult::new(response)));
    proof {
        assert(created_as(old(entities), entities, old(rooms), rooms, current_room_id, direction, target_text, outcome(r), drawn));
    }
    r
}

/// The marker component kind of a spawn target.
pub open spec fn spawn_kind(t: SpawnTarget) -> ComponentKind {
    match t {
        SpawnTarget::Item => ComponentKind::Item,
        SpawnTarget::Npc => ComponentKind::Npc,
    }
}

/// The marker component of a spawn target.
pub open spec fn spawn_marker(t: SpawnTarget) -> ComponentValue {
    match t {
        SpawnTarget::Item => ComponentValue::Item,
        SpawnTarget::Npc => ComponentValue::Npc,
    }
}

/// The answer after spawning.
pub open spec fn spawn_answer(t: SpawnTarget, alias: Seq<char>) -> Seq<char> {
    match t {
        SpawnTarget::Item => "Spawned item '"@ + alias + "'"@,
        SpawnTarget::Npc => "Spawned npc '"@ + alias + "'"@,
    }
}

/// Whether a component kind is one that spawning an entity of target `t` sets.
pub open spec fn spawn_sets(t: SpawnTarget, k: ComponentKind) -> bool {
    k == ComponentKind::SpawnLocation || k == ComponentKind::Location || k == ComponentKind::Name || k == spawn_kind(t)
}

/// The component of kind `k` that spawning an entity of target `t` at `room` gives it.
pub open spec fn spawn_component(t: SpawnTarget, k: ComponentKind, room: EntityId) -> ComponentValue {
    match k {
        ComponentKind::SpawnLocation => ComponentValue::SpawnLocation(room),
        ComponentKind::Location => ComponentValue::Location(room),
        ComponentKind::Name => ComponentValue::Name("Unnamed"@),
        _ => spawn_marker(t),
    }
}

/// The entity `id` was given, and marked as changed, the components of a new item or NPC at `room`.
pub open spec fn spawned_with(old_reg: &EntityRegistry, reg: &EntityRegistry, t: SpawnTarget, id: EntityId, room: EntityId) -> bool {
    &&& forall|k: ComponentKind| #[trigger] reg.table(k) == if spawn_sets(t, k) {
        old_reg.table(k).insert(id, spawn_component(t, k, room))
    } else {
        old_reg.table(k)
    }
    &&& forall|k: ComponentKind| #[trigger] reg.dirty_ids(k) == if spawn_sets(t, k) {
        old_reg.dirty_ids(k).insert(id)
    } else {
        old_reg.dirty_ids(k)
    }
}

/// `spawn` at location `l` once the identifier `id` is drawn. An identifier that is
/// already registered is refused with the registry's error and nothing changes. Otherwise
/// a new entity is registered even when the alias is taken; then it gets no components
/// and the answer says so.
pub open spec fn spawned_item_as(
    old_reg: &EntityRegistry,
    reg: &EntityRegistry,
    t: SpawnTarget,
    alias: Seq<char>,
    l: Location,
    o: Result<CommandResultView, Seq<char>>,
    id: EntityId,
) -> bool {
    if old_reg.aliases().contains_key(id) {
        &&& unchanged(reg, old_reg)
        &&& o == Err::<CommandResultView, Seq<char>>(registry_failure_text(EntityRegistryError::DuplicateSpawn(id)))
    } else {
        &&& reg.aliases() == old_reg.aliases().insert(id, alias)
        &&& if old_reg.alias_index().contains_key(alias) {
            &&& reg.alias_index() == old_reg.alias_index()
            &&& reg.same_tables(old_reg)
            &&& forall|k: ComponentKind| #[trigger] reg.dirty_ids(k) == old_reg.dirty_ids(k)
            &&& o == query_outcome("An entity already exists with alias '"@ + alias + "'"@)
        } else {
            &&& reg.alias_index() == old_reg.alias_index().insert(alias, id)
            &&& spawned_with(old_reg, reg, t, id, l.value)
            &&& o == query_outcome(spawn_answer(t, alias))
        }
    }
}

/// `spawn` at location `l` under a newly drawn identifier of version 7.
pub open spec fn spawn_at(
    old_reg: &EntityRegistry,
    reg: &EntityRegistry,
    t: SpawnTarget,
    alias: Seq<char>,
    l: Location,
    o: Result<CommandResultView, Seq<char>>,
) -> bool {
    exists|id: EntityId| uuid_version(id.uuid) == 7 && #[trigger] spawned_item_as(old_reg, reg, t, alias, l, o, id)
}

/// `spawn`: an administrator creates an unnamed item or NPC with the given alias in the
/// current room, which is also its spawn location, under a newly drawn identifier (see
/// `spawned_item_as`).
pub open spec fn spawn_outcome(
    old_reg: &EntityRegistry,
    reg: &EntityRegistry,
    ctx: SessionContext,
    t: SpawnTarget,
    alias: Seq<char>,
    o: Result<CommandResultView, Seq<char>>,
) -> bool {
    if !ctx.is_admin {
        o == Ok::<CommandResultView, Seq<char>>(CommandResultView::Unauthorized) && unchanged(reg, old_reg)
    } else {
        match current_position(old_reg, ctx.player_id) {
            Err(m) => o == Err::<CommandResultView, Seq<char>>(m) && unchanged(reg, old_reg),
            Ok(l) => spawn_at(old_reg, reg, t, alias, l, o),
        }
    }
}

pub(crate) fn handle_spawn(
    context: &SessionContext,
    entities: &mut EntityRegistry,
    target: SpawnTarget,
    alias: Alias,
) -> (r: Result<CommandResult, CommandExecutionError>)
    ensures
        spawn_outcome(old(entities), final(entities), *context, target, alias@, outcome(r)),
{
    if !context.is_admin {
        return Ok(CommandResult::Unauthorized);
    }
    let location = get_current_position(context, entities)?;
    let room = location.value;
    let ghost a = alias@;
    let spawned = entities.spawn(None, alias.clone());
    let ghost e0 = *entities;
    let ghost drawn = choose|id: EntityId| uuid_version(id.uuid) == 7 && spawned_as(old(entities), &e0, a, spawned, id);
    let entity_id = match spawned {
        Ok(id) => id,
        Err(EntityRegistryError::DuplicateAlias(taken)) => {
            let r = Ok(CommandResult::Query(QueryResult::new(cat3("An entity already exists with alias '", taken.as_str(), "'"))));
            proof {
                assert(spawned_item_as(old(entities), entities, target, a, location, outcome(r), drawn));
                assert(spawn_at(old(entities), entities, target, a, location, outcome(r)));
            }
            return r;
        },
        Err(e) => {
            let r = Err(CommandExecutionError::from_registry(e));
            proof {
                assert(spawned_item_as(old(entities), entities, target, a, location, outcome(r), drawn));
                assert(spawn_at(old(entities), entities, target, a, location, outcome(r)));
            }
            return r;
        },
    };
    let location = Location { value: room };
    match entities.update_component(&entity_id, SpawnLocation::from_location(&location)) {
        Ok(()) => {},
        Err(e) => {
            return Err(CommandExecutionError::from_registry(e));
        },
    }
    let ghost e1 = *entities;
    match entities.update_component(&entity_id, location) {
        Ok(()) => {},
        Err(e) => {
            return Err(CommandExecutionError::from_registry(e));
        },
    }
    let ghost e2 = *entities;
    match entities.update_component(&entity_id, Name::new("Unnamed")) {
        Ok(()) => {},
        Err(e) => {
            return Err(CommandExecutionError::from_registry(e));
        },
    }
    let ghost e3 = *entities;
    let marked = match target {
        SpawnTarget::Item => entities.update_component(&entity_id, Item),
        SpawnTarget::Npc => entities.update_component(&entity_id, Npc),
    };
    match marked {
        Ok(()) => {},
        Err(e) => {
            return Err(CommandExecutionError::from_registry(e));
        },
    }
    let answer = match target {
        SpawnTarget::Item => cat3("Spawned item '", alias.as_str(), "'"),
        SpawnTarget::Npc => cat3("Spawned npc '", alias.as_str(), "'"),
    };
    proof {
        assert(entities.aliases() == old(entities).aliases().insert(entity_id, a));
        assert forall|k: ComponentKind| #[trigger] entities.table(k) == if spawn_sets(target, k) {
            old(entities).table(k).insert(entity_id, spawn_component(target, k, room))
        } else {
            old(entities).table(k)
        } by {
            assert(e0.table(k) == old(entities).table(k));
        }
        assert forall|k: ComponentKind| #[trigger] entities.dirty_ids(k) == if spawn_sets(target, k) {
            old(entities).dirty_ids(k).insert(entity_id)
        } else {
            old(entities).dirty_ids(k)
        } by {
            assert(e0.dirty_ids(k) == old(entities).dirty_ids(k));
            if k == ComponentKind::SpawnLocation || k == ComponentKind::Location {
                assert(old(entities).dirty_ids(k).insert(entity_id).insert(entity_id) =~= old(entities).dirty_ids(k).insert(entity_id));
            }
        }
    }
    let r = Ok(CommandResult::Query(QueryResult::new(answer)));
    proof {
        assert(spawned_item_as(old(entities), entities, target, a, location, outcome(r), drawn));
        assert(spawn_at(old(entities), entities, target, a, location, outcome(r)));
    }
    r
}

/// The lines of `roominfo` for the exits `exits` of a room: each exit with the alias and
/// identifier of its destination, or the error for the first destination without an alias.
pub open spec fn exit_lines(reg: &EntityRegistry, node: RoomGraphNode, exits: Seq<Direction>) -> Result<Seq<Seq<char>>, Seq<char>>
    decreases exits.len(),
{
    if exits.len() == 0 {
        Ok(seq![])
    } else {
        match exit_lines(reg, node, exits.drop_last()) {
            Err(m) => Err(m),
            Ok(lines) => {
                let d = exits.last();
                let dest = node@[d];
                if !reg.aliases().contains_key(dest.entity) {
                    Err(registry_failure_text(EntityRegistryError::UnknownEntity(dest.entity)))
                } else {
                    Ok(lines.push(direction_name(d) + ": "@ + reg.aliases()[dest.entity] + " ("@ + uuid_text(dest.entity.uuid) + ")"@))
                }
            },
        }
    }
}

/// `roominfo`: an administrator sees the alias and identifier of the current room and of
/// the room behind each exit.
pub open spec fn roominfo_outcome(reg: &EntityRegistry, graph: &RoomGraph, ctx: SessionContext, o: Result<CommandResultView, Seq<char>>) -> bool {
    if !ctx.is_admin {
        o == Ok::<CommandResultView, Seq<char>>(CommandResultView::Unauthorized)
    } else {
        match current_position(reg, ctx.player_id) {
            Err(m) => o == Err::<CommandResultView, Seq<char>>(m),
            Ok(l) => {
                let cur = RoomId { entity: l.value };
                if !graph@.contains_key(cur) {
                    o == query_outcome(no_current_room(cur))
                } else if !reg.aliases().contains_key(cur.entity) {
                    o == Err::<CommandResultView, Seq<char>>(registry_failure_text(EntityRegistryError::UnknownEntity(cur.entity)))
                } else {
                    match exit_lines(reg, graph@[cur], graph@[cur].exit_list()) {
                        Err(m) => o == Err::<CommandResultView, Seq<char>>(m),
                        Ok(lines) => o == query_outcome(
                            reg.aliases()[cur.entity] + " ("@ + uuid_text(cur.entity.uuid) + ")\n\n"@ + seq_join(lines, "\n"@),
                        ),
                    }
                }
            },
        }
    }
}

pub(crate) fn handle_roominfo(context: &SessionContext, entities: &EntityRegistry, rooms: &RoomGraph) -> (r: Result<CommandResult, CommandExecutionError>)
    ensures
        roominfo_outcome(entities, rooms, *context, outcome(r)),
{
    if !context.is_admin {
        return Ok(CommandResult::Unauthorized);
    }
    let location = get_current_position(context, entities)?;
    let current_room_id = RoomId::from_entity(location.value);
    let current_room = match rooms.get_room(&current_room_id) {
        Some(room) => room,
        None => {
            let id = current_room_id.to_string();
            return Ok(CommandResult::Query(QueryResult::new(cat3("Could not get current room (ID: ", id.as_str(), ")"))));
        },
    };
    let current_room_alias = match entities.get_alias(&current_room_id.as_entity()) {
        Ok(a) => a,
        Err(e) => {
            return Err(CommandExecutionError::from_registry(e));
        },
    };
    let exits = current_room.exits();
    let mut lines: Vec<String> = Vec::new();
    let mut i: usize = 0;
    assert(exits@.take(0) =~= Seq::<Direction>::empty());
    assert(views(lines@) =~= Seq::<Seq<char>>::empty());
    while i < exits.len()
        invariant
            i <= exits.len(),
            exits@ == current_room.exit_list(),
            exit_lines(entities, current_room, exits@.take(i as int)) == Ok::<Seq<Seq<char>>, Seq<char>>(views(lines@)),
            context.is_admin,
            current_position(entities, context.player_id) == Ok::<Location, Seq<char>>(location),
            current_room_id.entity == location.value,
            rooms@.contains_key(current_room_id),
            rooms@[current_room_id] == current_room,
            entities.aliases().contains_key(current_room_id.entity),
        decreases exits.len() - i,
    {
        let exit = exits[i];
        assert(exits@.take(i + 1).drop_last() =~= exits@.take(i as int));
        assert(current_room.exit_list().contains(exit));
        let destination_id = match current_room.get_destination(exit) {
            Some(id) => id,
            None => {
                return Err(
                    CommandExecutionError::Unrecoverable(
                        cat3("Could not get destination for exit '", exit.name(), "' of current room."),
                    ),
                );
            },
        };
        let destination_alias = match entities.get_alias(&destination_id.as_entity()) {
            Ok(a) => a,
            Err(e) => {
                let r = Err(CommandExecutionError::from_registry(e));
                proof {
                    assert(exits@.take(i + 1).last() == exit);
                    assert(current_room@[exit] == destination_id);
                    assert(exit_lines(entities, current_room, exits@.take(i + 1))
                        == Err::<Seq<Seq<char>>, Seq<char>>(registry_failure_text(EntityRegistryError::UnknownEntity(destination_id.entity))));
                    lemma_exit_lines_stop(entities, current_room, exits@, i as int);
                }
                return r;
            },
        };
        let id_text = destination_id.to_string();
        let mut line = cat3(exit.name(), ": ", destination_alias.as_str());
        line.append(" (");
        line.append(id_text.as_str());
        line.append(")");
        let ghost prev = views(lines@);
        lines.push(line);
        assert(views(lines@) =~= prev.push(views(lines@).last()));
        i = i + 1;
    }
    assert(exits@.take(exits.len() as int) =~= exits@);
    let id_text = current_room_id.to_string();
    let mut response = cat3(current_room_alias.as_str(), " (", id_text.as_str());
    response.append(")\n\n");
    let list = join(&lines, "\n");
    response.append(list.as_str());
    Ok(CommandResult::Query(QueryResult::new(response)))
}

/// Once a prefix of the exits gives an error, every longer prefix gives the same one.
proof fn lemma_exit_lines_stop(reg: &EntityRegistry, node: RoomGraphNode, exits: Seq<Direction>, i: int)
    requires
        0 <= i < exits.len(),
        exit_lines(reg, node, exits.take(i + 1)) is Err,
    ensures
        exit_lines(reg, node, exits) == exit_lines(reg, node, exits.take(i + 1)),
    decreases exits.len() - i,
{
    if i + 1 < exits.len() {
        assert(exits.take(i + 2).drop_last() =~= exits.take(i + 1));
        lemma_exit_lines_stop(reg, node, exits, i + 1);
    } else {
        assert(exits.take(i + 1) =~= exits);
    }
}

/// `link` succeeds: the administrator stands in room `cur` of the graph, `target` names
/// another room `other` of the graph, exit `d` of `cur` and the opposite exit of `other`
/// are free, and the current room is registered.
pub open spec fn link_succeeds(reg: &EntityRegistry, graph: &RoomGraph, ctx: SessionContext, d: Direction, target: Seq<char>) -> bool {
    &&& ctx.is_admin
    &&& current_position(reg, ctx.player_id) is Ok
    &&& reg.alias_index().contains_key(target)
    &&& {
        let cur = RoomId { entity: current_position(reg, ctx.player_id)->Ok_0.value };
        let other = RoomId { entity: reg.alias_index()[target] };
        &&& graph@.contains_key(cur)
        &&& graph@.contains_key(other)
        &&& !graph@[cur]@.contains_key(d)
        &&& !graph@[other]@.contains_key(opposite_of(d))
        &&& reg.aliases().contains_key(cur.entity)
    }
}

/// A link between two different rooms goes both ways: exit `d` of the current room leads
/// to the target room, and the opposite exit of the target room leads back.
pub proof fn law_link_is_two_way(
    reg: &EntityRegistry,
    g0: &RoomGraph,
    g1: &RoomGraph,
    ctx: SessionContext,
    d: Direction,
    target: Seq<char>,
    o: Result<CommandResultView, Seq<char>>,
)
    requires
        link_succeeds(reg, g0, ctx, d, target),
        current_position(reg, ctx.player_id)->Ok_0.value != reg.alias_index()[target],
        link_outcome(reg, g0, g1, ctx, d, target, o),
    ensures
        ({
            let cur = RoomId { entity: current_position(reg, ctx.player_id)->Ok_0.value };
            let other = RoomId { entity: reg.alias_index()[target] };
            &&& g1@[cur]@.contains_key(d) && g1@[cur]@[d] == other
            &&& g1@[other]@.contains_key(opposite_of(d)) && g1@[other]@[opposite_of(d)] == cur
        }),
{
    let cur = RoomId { entity: current_position(reg, ctx.player_id)->Ok_0.value };
    let other = RoomId { entity: reg.alias_index()[target] };
    g0@[cur].lemma_with_exit(d, other);
    g0@[other].lemma_with_exit(opposite_of(d), cur);
}

/// Unlinking the exit that a link between two different rooms made gives back the room
/// graph from before the link.
pub proof fn law_unlink_undoes_link(
    reg: &EntityRegistry,
    g0: &RoomGraph,
    g1: &RoomGraph,
    g2: &RoomGraph,
    ctx: SessionContext,
    d: Direction,
    target: Seq<char>,
    o1: Result<CommandResultView, Seq<char>>,
    o2: Result<CommandResultView, Seq<char>>,
)
    requires
        reg.wf(),
        link_succeeds(reg, g0, ctx, d, target),
        current_position(reg, ctx.player_id)->Ok_0.value != reg.alias_index()[target],
        link_outcome(reg, g0, g1, ctx, d, target, o1),
        unlink_outcome(reg, g1, g2, ctx, d, o2),
    ensures
        g2@ == g0@,
{
    law_alias_index_names_registered(reg);
    let cur = RoomId { entity: current_position(reg, ctx.player_id)->Ok_0.value };
    let other = RoomId { entity: reg.alias_index()[target] };
    law_link_is_two_way(reg, g0, g1, ctx, d, target, o1);
    g0@[cur].law_remove_undoes_set(d, other);
    g0@[other].law_remove_undoes_set(opposite_of(d), cur);
    assert(g2@ =~= g0@);
}

/// When every listed exit of `node` leads to a registered room, the lines for them are one
/// per exit, in order: the direction, the alias of the room it leads to and its identifier.
proof fn lemma_exit_lines_all(reg: &EntityRegistry, node: RoomGraphNode, exits: Seq<Direction>)
    requires
        forall|i: int| 0 <= i < exits.len() ==> reg.aliases().contains_key(node@[#[trigger] exits[i]].entity),
    ensures
        exit_lines(reg, node, exits) == Ok::<Seq<Seq<char>>, Seq<char>>(exits.map_values(|d: Direction|
            direction_name(d) + ": "@ + reg.aliases()[node@[d].entity] + " ("@ + uuid_text(node@[d].entity.uuid) + ")"@)),
    decreases exits.len(),
{
    let line = |d: Direction| direction_name(d) + ": "@ + reg.aliases()[node@[d].entity] + " ("@ + uuid_text(node@[d].entity.uuid) + ")"@;
    if exits.len() > 0 {
        let init = exits.drop_last();
        assert forall|i: int| 0 <= i < init.len() implies reg.aliases().contains_key(node@[#[trigger] init[i]].entity) by {
            assert(init[i] == exits[i]);
        }
        lemma_exit_lines_all(reg, node, init);
        assert(reg.aliases().contains_key(node@[exits[exits.len() - 1]].entity));
        assert(exits.map_values(line) =~= init.map_values(line).push(line(exits.last())));
    } else {
        assert(exits.map_values(line) =~= Seq::<Seq<char>>::empty());
    }
}

/// `roominfo` lists every exit of the administrator's room, each once and on a line of
/// its own: the direction, the alias of the room it leads to and that room's identifier,
/// after a heading with the alias and identifier of the room itself.
pub proof fn law_roominfo_lists_every_exit(
    reg: &EntityRegistry,
    graph: &RoomGraph,
    ctx: SessionContext,
    o: Result<CommandResultView, Seq<char>>,
)
    requires
        roominfo_outcome(reg, graph, ctx, o),
        ctx.is_admin,
        current_position(reg, ctx.player_id) is Ok,
        graph@.contains_key(RoomId { entity: current_position(reg, ctx.player_id)->Ok_0.value }),
        reg.aliases().contains_key(current_position(reg, ctx.player_id)->Ok_0.value),
        forall|d: Direction| #[trigger] graph@[RoomId { entity: current_position(reg, ctx.player_id)->Ok_0.value }]@.contains_key(d)
            ==> reg.aliases().contains_key(graph@[RoomId { entity: current_position(reg, ctx.player_id)->Ok_0.value }]@[d].entity),
    ensures
        ({
            let cur = RoomId { entity: current_position(reg, ctx.player_id)->Ok_0.value };
            let exits = graph@[cur]@;
            exists|ds: Seq<Direction>| {
                &&& #[trigger] ds.no_duplicates()
                &&& forall|d: Direction| #[trigger] ds.contains(d) <==> exits.contains_key(d)
                &&& o == query_outcome(reg.aliases()[cur.entity] + " ("@ + uuid_text(cur.entity.uuid) + ")\n\n"@
                    + seq_join(ds.map_values(|d: Direction|
                        direction_name(d) + ": "@ + reg.aliases()[exits[d].entity] + " ("@ + uuid_text(exits[d].entity.uuid) + ")"@),
                    "\n"@))
            }
        }),
{
    let cur = RoomId { entity: current_position(reg, ctx.player_id)->Ok_0.value };
    let node = graph@[cur];
    let ds = node.exit_list();
    lemma_exit_order(node@);
    assert forall|i: int| 0 <= i < ds.len() implies reg.aliases().contains_key(node@[#[trigger] ds[i]].entity) by {
        assert(ds.contains(ds[i]));
    }
    lemma_exit_lines_all(reg, node, ds);
    assert(ds.no_duplicates());
}

} // verus!
