//! The world as a set of rooms that carry their own texts and exits, with an index of
//! rooms by alias.
use vstd::prelude::*;
use std::collections::HashMap;
use vstd::hash_map::StringHashMap;
use vstd::std_specs::iter::IteratorSpec;
use crate::model::ids::RoomId;
use crate::model::rooms::{exit_order, lemma_exit_order, Direction, RoomGraphNode};

verus! {

broadcast use vstd::std_specs::hash::group_hash_axioms;

/// A room: its alias, name, description and exits.
#[derive(Debug)]
pub struct Room {
    alias: String,
    name: String,
    description: String,
    exits: RoomGraphNode,
}

pub struct RoomView {
    pub alias: Seq<char>,
    pub name: Seq<char>,
    pub description: Seq<char>,
    pub exits: Map<Direction, RoomId>,
}

impl View for Room {
    type V = RoomView;

    open spec fn view(&self) -> RoomView {
        RoomView { alias: self.alias_view(), name: self.name_view(), description: self.description_view(), exits: self.exit_view() }
    }
}

impl Clone for Room {
    fn clone(&self) -> (copy: Room)
        ensures
            copy@ == self@,
    {
        Room {
            alias: self.alias.clone(),
            name: self.name.clone(),
            description: self.description.clone(),
            exits: self.exits,
        }
    }
}

impl Room {
    pub closed spec fn alias_view(&self) -> Seq<char> {
        self.alias@
    }

    pub closed spec fn name_view(&self) -> Seq<char> {
        self.name@
    }

    pub closed spec fn description_view(&self) -> Seq<char> {
        self.description@
    }

    pub closed spec fn exit_view(&self) -> Map<Direction, RoomId> {
        self.exits@
    }

    pub fn new(alias: String, name: String, description: String, exits: RoomGraphNode) -> (room: Room)
        ensures
            room@ == (RoomView { alias: alias@, name: name@, description: description@, exits: exits@ }),
    {
        Room { alias, name, description, exits }
    }

    pub fn get_destination(&self, direction: Direction) -> (r: Option<RoomId>)
        ensures
            r == (if self@.exits.contains_key(direction) { Some(self@.exits[direction]) } else { None::<RoomId> }),
    {
        self.exits.get_destination(direction)
    }

    pub fn name(&self) -> (s: &str)
        ensures
            s@ == self@.name,
    {
        self.name.as_str()
    }

    pub fn description(&self) -> (s: &str)
        ensures
            s@ == self@.description,
    {
        self.description.as_str()
    }

    pub fn alias(&self) -> (s: &str)
        ensures
            s@ == self@.alias,
    {
        self.alias.as_str()
    }

    pub fn set_description(&mut self, desc: String)
        ensures
            final(self)@ == (RoomView { description: desc@, ..old(self)@ }),
    {
        self.description = desc;
    }

    pub fn set_name(&mut self, name: String)
        ensures
            final(self)@ == (RoomView { name: name@, ..old(self)@ }),
    {
        self.name = name;
    }

    pub fn set_exit(&mut self, direction: Direction, destination: RoomId)
        ensures
            final(self)@ == (RoomView { exits: old(self)@.exits.insert(direction, destination), ..old(self)@ }),
    {
        self.exits.set_exit(direction, destination);
    }

    /// The directions with an exit, in the order north, south, east, west.
    pub fn exits(&self) -> (r: Vec<Direction>)
        ensures
            r@ == exit_order(self@.exits),
            forall|d: Direction| #[trigger] r@.contains(d) <==> self@.exits.contains_key(d),
            r@.no_duplicates(),
    {
        let r = self.exits.exits();
        proof {
            lemma_exit_order(self@.exits);
        }
        r
    }

    pub fn has_exit(&self, direction: &Direction) -> (r: bool)
        ensures
            r == self@.exits.contains_key(*direction),
    {
        self.exits.has_exit(direction)
    }
}

/// The rooms of the world by identifier, and which room each alias names.
pub struct World {
    rooms: HashMap<u128, Room>,
    aliases: StringHashMap<RoomId>,
}

/// The room map that a list of (identifier, room) pairs gives; a later pair for the same
/// identifier replaces an earlier one.
pub open spec fn rooms_from_pairs(pairs: Seq<(RoomId, RoomView)>) -> Map<RoomId, RoomView>
    decreases pairs.len(),
{
    if pairs.len() == 0 {
        Map::empty()
    } else {
        rooms_from_pairs(pairs.drop_last()).insert(pairs.last().0, pairs.last().1)
    }
}

/// The alias index that a list of (identifier, room) pairs gives: each room's alias names
/// its identifier, a later pair winning.
pub open spec fn aliases_from_pairs(pairs: Seq<(RoomId, RoomView)>) -> Map<Seq<char>, RoomId>
    decreases pairs.len(),
{
    if pairs.len() == 0 {
        Map::empty()
    } else {
        aliases_from_pairs(pairs.drop_last()).insert(pairs.last().1.alias, pairs.last().0)
    }
}

pub open spec fn room_views(pairs: Seq<(RoomId, Room)>) -> Seq<(RoomId, RoomView)> {
    pairs.map_values(|p: (RoomId, Room)| (p.0, p.1@))
}

/// The identifier that the default starting room has.
pub const DEFAULT_ROOM_UUID: u128 = 0x019e5690_0757_7256_97c1_a403f4d347ca;

impl World {
    /// The rooms by identifier.
    pub closed spec fn room_map(&self) -> Map<RoomId, RoomView> {
        Map::new(
            |id: RoomId| self.rooms@.contains_key(id.entity.uuid),
            |id: RoomId| self.rooms@[id.entity.uuid]@,
        )
    }

    /// Which room each alias names.
    pub closed spec fn alias_map(&self) -> Map<Seq<char>, RoomId> {
        self.aliases@
    }

    /// A world with the given rooms, in order; a later room with the same identifier or
    /// alias wins.
    pub fn new(rooms: Vec<(RoomId, Room)>) -> (world: World)
        ensures
            world.room_map() == rooms_from_pairs(room_views(rooms@)),
            world.alias_map() == aliases_from_pairs(room_views(rooms@)),
    {
        let ghost all = room_views(rooms@);
        let mut world = World { rooms: HashMap::new(), aliases: StringHashMap::new() };
        assert(world.room_map() =~= Map::<RoomId, RoomView>::empty());
        assert(all.take(0) =~= Seq::<(RoomId, RoomView)>::empty());
        let mut i: usize = 0;
        while i < rooms.len()
            invariant
                i <= rooms.len(),
                all == room_views(rooms@),
                world.room_map() == rooms_from_pairs(all.take(i as int)),
                world.alias_map() == aliases_from_pairs(all.take(i as int)),
            decreases rooms.len() - i,
        {
            let id = rooms[i].0;
            let room = rooms[i].1.clone();
            assert(all.take(i + 1).drop_last() =~= all.take(i as int));
            assert(all[i as int] == (id, room@));
            let ghost prev = world.room_map();
            world.aliases.insert(room.alias.clone(), id);
            world.rooms.insert(id.entity.uuid, room);
            assert(world.room_map() =~= prev.insert(id, all[i as int].1));
            i = i + 1;
        }
        assert(all.take(rooms.len() as int) =~= all);
        world
    }

    /// A copy of the room with the given identifier, if there is one.
    pub fn get_room(&self, id: &RoomId) -> (r: Option<Room>)
        ensures
            match r {
                Some(room) => self.room_map().contains_key(*id) && room@ == self.room_map()[*id],
                None => !self.room_map().contains_key(*id),
            },
    {
        match self.rooms.get(&id.entity.uuid) {
            Some(room) => Some(room.clone()),
            None => None,
        }
    }

    /// Stores a room under an identifier. The alias of the room it replaces stops naming
    /// anything (even if it named another room), then the new room's alias names `id`.
    pub fn update_room(&mut self, id: RoomId, room: Room)
        ensures
            room_updated(old(self), final(self), id, room@),
    {
        let new_alias = room.alias.clone();
        let ghost v = room@;
        let old_room = self.rooms.insert(id.entity.uuid, room);
        match old_room {
            Some(old) => {
                self.aliases.remove(old.alias.as_str());
            },
            None => {},
        }
        self.aliases.insert(new_alias, id);
        assert(self.room_map() =~= old(self).room_map().insert(id, v));
    }

    /// The room that an alias names, if any.
    pub fn resolve_alias(&self, alias: &str) -> (r: Option<RoomId>)
        ensures
            r == (if self.alias_map().contains_key(alias@) { Some(self.alias_map()[alias@]) } else { None::<RoomId> }),
    {
        match self.aliases.get(alias) {
            Some(id) => Some(*id),
            None => None,
        }
    }

    /// Copies of all rooms with their identifiers, each room once.
    pub fn rooms(&self) -> (r: Vec<(RoomId, Room)>)
        ensures
            forall|i: int| 0 <= i < r@.len() ==> #[trigger] self.room_map().contains_key(r@[i].0)
                && self.room_map()[r@[i].0] == r@[i].1@,
            forall|id: RoomId| #[trigger] self.room_map().contains_key(id) ==> exists|i: int| 0 <= i < r@.len() && r@[i].0 == id,
            forall|i: int, j: int| 0 <= i < j < r@.len() ==> r@[i].0 != r@[j].0,
    {
        let mut r: Vec<(RoomId, Room)> = Vec::new();
        let ghost sq = self.rooms.keys().remaining().unref();
        for k in it: self.rooms.keys()
            invariant
                it.seq().unref() == sq,
                it.index() <= sq.len(),
                sq.no_duplicates(),
                sq.to_set() == self.rooms@.dom(),
                r@.len() == it.index(),
                forall|i: int| 0 <= i < r@.len() ==> r@[i].0.entity.uuid == sq[i] && self.rooms@[sq[i]]@ == r@[i].1@,
        {
            assert(sq.contains(sq[it.index()]));
            let room = self.rooms.get(k).unwrap().clone();
            r.push((RoomId::from_uuid(*k), room));
        }
        proof {
            assert forall|id: RoomId| #[trigger] self.room_map().contains_key(id) implies exists|i: int| 0 <= i < r@.len() && r@[i].0 == id by {
                assert(sq.to_set().contains(id.entity.uuid));
                let i = choose|i: int| 0 <= i < sq.len() && sq[i] == id.entity.uuid;
                assert(r@[i].0 == id);
            }
            assert forall|i: int| 0 <= i < r@.len() implies #[trigger] self.room_map().contains_key(r@[i].0)
                && self.room_map()[r@[i].0] == r@[i].1@ by {
                assert(sq.to_set().contains(sq[i]));
            }
            assert forall|i: int, j: int| 0 <= i < j < r@.len() implies r@[i].0 != r@[j].0 by {
                assert(sq[i] != sq[j]);
            }
        }
        r
    }

    /// The identifier of the room where new players start by default.
    pub fn default_room_id() -> (id: RoomId)
        ensures
            id.entity.uuid == DEFAULT_ROOM_UUID,
    {
        RoomId::from_uuid(DEFAULT_ROOM_UUID)
    }
}

/// The effect of `update_room` storing `room` under `id`: the room replaces any room with
/// that identifier; the alias of the replaced room stops naming anything, then the new
/// room's alias names `id`.
pub open spec fn room_updated(before: &World, after: &World, id: RoomId, room: RoomView) -> bool {
    &&& after.room_map() == before.room_map().insert(id, room)
    &&& after.alias_map() == if before.room_map().contains_key(id) {
        before.alias_map().remove(before.room_map()[id].alias).insert(room.alias, id)
    } else {
        before.alias_map().insert(room.alias, id)
    }
}

/// After a room is stored, looking it up gives it and its alias names it; every other
/// room is as before.
pub proof fn law_world_read_after_update(before: &World, after: &World, id: RoomId, room: RoomView)
    requires
        room_updated(before, after, id, room),
    ensures
        after.room_map().contains_key(id) && after.room_map()[id] == room,
        after.alias_map().contains_key(room.alias) && after.alias_map()[room.alias] == id,
        forall|other: RoomId| other != id ==> #[trigger] after.room_map().contains_key(other) == before.room_map().contains_key(other),
        forall|other: RoomId| other != id && before.room_map().contains_key(other) ==> #[trigger] after.room_map()[other] == before.room_map()[other],
{
}

} // verus!
