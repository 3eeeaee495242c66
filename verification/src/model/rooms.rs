//! The room graph: rooms and the exits that link them.
use vstd::prelude::*;
use std::collections::HashMap;
use vstd::std_specs::iter::IteratorSpec;
use crate::model::ids::RoomId;
use crate::text::{ascii_lower, str_eq, to_ascii_lowercase};

verus! {

broadcast use vstd::std_specs::hash::group_hash_axioms;

/// The text that could not be read as a direction (after ASCII lower-casing).
pub enum DirectionParseError {
    Invalid(String),
}

#[derive(Clone, Copy, PartialEq, Eq, Structural, Hash, Debug)]
pub enum Direction {
    North,
    South,
    East,
    West,
}

/// The direction that a (lower-case) word names, if any: the full name or its first letter.
pub open spec fn direction_from_word(s: Seq<char>) -> Option<Direction> {
    if s == "n"@ || s == "north"@ {
        Some(Direction::North)
    } else if s == "s"@ || s == "south"@ {
        Some(Direction::South)
    } else if s == "e"@ || s == "east"@ {
        Some(Direction::East)
    } else if s == "w"@ || s == "west"@ {
        Some(Direction::West)
    } else {
        None
    }
}

pub open spec fn opposite_of(d: Direction) -> Direction {
    match d {
        Direction::North => Direction::South,
        Direction::South => Direction::North,
        Direction::East => Direction::West,
        Direction::West => Direction::East,
    }
}

/// The lower-case name of a direction.
pub open spec fn direction_name(d: Direction) -> Seq<char> {
    match d {
        Direction::North => "north"@,
        Direction::South => "south"@,
        Direction::East => "east"@,
        Direction::West => "west"@,
    }
}

impl Direction {
    /// Reads a direction from its name or first letter, in any ASCII letter case.
    pub fn from_string(s: &str) -> (r: Result<Direction, DirectionParseError>)
        ensures
            match r {
                Ok(d) => direction_from_word(ascii_lower(s@)) == Some(d),
                Err(DirectionParseError::Invalid(t)) => direction_from_word(ascii_lower(s@)) is None
                    && t@ == ascii_lower(s@),
            },
    {
        let lower = to_ascii_lowercase(s);
        let l = lower.as_str();
        if str_eq(l, "n") || str_eq(l, "north") {
            Ok(Direction::North)
        } else if str_eq(l, "s") || str_eq(l, "south") {
            Ok(Direction::South)
        } else if str_eq(l, "e") || str_eq(l, "east") {
            Ok(Direction::East)
        } else if str_eq(l, "w") || str_eq(l, "west") {
            Ok(Direction::West)
        } else {
            Err(DirectionParseError::Invalid(lower))
        }
    }

    pub fn opposite(&self) -> (d: Direction)
        ensures
            d == opposite_of(*self),
    {
        match self {
            Direction::North => Direction::South,
            Direction::South => Direction::North,
            Direction::East => Direction::West,
            Direction::West => Direction::East,
        }
    }

    /// The lower-case name of the direction (its display form).
    pub fn name(&self) -> (s: &'static str)
        ensures
            s@ == direction_name(*self),
    {
        match self {
            Direction::North => "north",
            Direction::South => "south",
            Direction::East => "east",
            Direction::West => "west",
        }
    }

    /// The display form of the direction.
    pub fn to_string(&self) -> (s: String)
        ensures
            s@ == direction_name(*self),
    {
        self.name().to_string()
    }
}

/// The map that a list of (direction, destination) pairs describes; a later pair for the
/// same direction replaces an earlier one.
pub open spec fn exits_from_pairs(pairs: Seq<(Direction, RoomId)>) -> Map<Direction, RoomId>
    decreases pairs.len(),
{
    if pairs.len() == 0 {
        Map::empty()
    } else {
        exits_from_pairs(pairs.drop_last()).insert(pairs.last().0, pairs.last().1)
    }
}

/// Every direction has an opposite, different from it, whose opposite is the direction.
pub proof fn law_opposite_involutive(d: Direction)
    ensures
        opposite_of(opposite_of(d)) == d,
        opposite_of(d) != d,
{
}

/// Reading the display name of a direction gives the direction back.
pub proof fn law_direction_name_round_trip(d: Direction)
    ensures
        direction_from_word(ascii_lower(direction_name(d))) == Some(d),
{
    reveal_strlit("n");
    reveal_strlit("s");
    reveal_strlit("e");
    reveal_strlit("w");
    match d {
        Direction::North => {
            reveal_strlit("north");
            assert(ascii_lower("north"@) =~= "north"@);
        },
        Direction::South => {
            reveal_strlit("north");
            reveal_strlit("south");
            assert(ascii_lower("south"@) =~= "south"@);
            assert("south"@[0] != "north"@[0]);
            assert(direction_from_word(ascii_lower(direction_name(d))) == Some(d));
        },
        Direction::East => {
            reveal_strlit("north");
            reveal_strlit("south");
            reveal_strlit("east");
            assert(ascii_lower("east"@) =~= "east"@);
        },
        Direction::West => {
            reveal_strlit("north");
            reveal_strlit("south");
            reveal_strlit("east");
            reveal_strlit("west");
            assert(ascii_lower("west"@) =~= "west"@);
            assert("west"@[0] != "north"@[0]);
            assert("west"@[0] != "south"@[0]);
            assert("west"@[0] != "east"@[0]);
            assert(direction_from_word(ascii_lower(direction_name(d))) == Some(d));
        },
    }
}

/// The directions that `exits` has, in the order north, south, east, west.
pub open spec fn exit_order(exits: Map<Direction, RoomId>) -> Seq<Direction> {
    (if exits.contains_key(Direction::North) { seq![Direction::North] } else { seq![] })
        + (if exits.contains_key(Direction::South) { seq![Direction::South] } else { seq![] })
        + (if exits.contains_key(Direction::East) { seq![Direction::East] } else { seq![] })
        + (if exits.contains_key(Direction::West) { seq![Direction::West] } else { seq![] })
}

/// `exit_order` lists each direction of the map once.
pub proof fn lemma_exit_order(exits: Map<Direction, RoomId>)
    ensures
        forall|d: Direction| #[trigger] exit_order(exits).contains(d) <==> exits.contains_key(d),
        exit_order(exits).no_duplicates(),
{
    broadcast use vstd::seq_lib::group_seq_properties;
    let a: Seq<Direction> = if exits.contains_key(Direction::North) { seq![Direction::North] } else { seq![] };
    let b: Seq<Direction> = if exits.contains_key(Direction::South) { seq![Direction::South] } else { seq![] };
    let c: Seq<Direction> = if exits.contains_key(Direction::East) { seq![Direction::East] } else { seq![] };
    let e: Seq<Direction> = if exits.contains_key(Direction::West) { seq![Direction::West] } else { seq![] };
    let s = exit_order(exits);
    assert(s == a + b + c + e);
    assert forall|d: Direction| #[trigger] s.contains(d) <==> exits.contains_key(d) by {
        assert(s.contains(d) <==> (a + b + c).contains(d) || e.contains(d));
        assert((a + b + c).contains(d) <==> (a + b).contains(d) || c.contains(d));
        assert((a + b).contains(d) <==> a.contains(d) || b.contains(d));
        if exits.contains_key(d) {
            match d {
                Direction::North => assert(a[0] == d),
                Direction::South => assert(b[0] == d),
                Direction::East => assert(c[0] == d),
                Direction::West => assert(e[0] == d),
            }
        }
    }
    assert forall|i: int, j: int| 0 <= i < s.len() && 0 <= j < s.len() && i != j implies s[i] != s[j] by {
        assert(s.len() <= 4);
    }
}

/// The exits of one room: for each direction, the room it leads to, if any.
#[derive(Clone, Copy, Debug)]
pub struct RoomGraphNode {
    north: Option<RoomId>,
    south: Option<RoomId>,
    east: Option<RoomId>,
    west: Option<RoomId>,
}

impl RoomGraphNode {
    pub closed spec fn slot(&self, d: Direction) -> Option<RoomId> {
        match d {
            Direction::North => self.north,
            Direction::South => self.south,
            Direction::East => self.east,
            Direction::West => self.west,
        }
    }

    pub closed spec fn exit_map(&self) -> Map<Direction, RoomId> {
        Map::new(|d: Direction| self.slot(d) is Some, |d: Direction| self.slot(d)->0)
    }

    /// The directions with an exit, in the order north, south, east, west.
    pub open spec fn exit_list(&self) -> Seq<Direction> {
        exit_order(self@)
    }
}

impl View for RoomGraphNode {
    type V = Map<Direction, RoomId>;

    open spec fn view(&self) -> Map<Direction, RoomId> {
        self.exit_map()
    }
}

impl RoomGraphNode {
    /// A node with the exits that the pairs give (a later pair for a direction wins).
    pub fn new(exits: Vec<(Direction, RoomId)>) -> (node: RoomGraphNode)
        ensures
            node@ == exits_from_pairs(exits@),
    {
        let mut node = RoomGraphNode { north: None, south: None, east: None, west: None };
        let mut i: usize = 0;
        proof {
            assert(exits@.take(0) =~= Seq::<(Direction, RoomId)>::empty());
            assert(node@ =~= Map::<Direction, RoomId>::empty());
        }
        while i < exits.len()
            invariant
                i <= exits.len(),
                node@ == exits_from_pairs(exits@.take(i as int)),
            decreases exits.len() - i,
        {
            let (d, dest) = exits[i];
            node.set_exit(d, dest);
            assert(exits@.take(i + 1).drop_last() =~= exits@.take(i as int));
            i = i + 1;
        }
        assert(exits@.take(exits.len() as int) =~= exits@);
        node
    }

    pub fn get_destination(&self, direction: Direction) -> (r: Option<RoomId>)
        ensures
            r == (if self@.contains_key(direction) { Some(self@[direction]) } else { None::<RoomId> }),
    {
        match direction {
            Direction::North => self.north,
            Direction::South => self.south,
            Direction::East => self.east,
            Direction::West => self.west,
        }
    }

    /// This node with the exit in direction `d` leading to `dest`.
    pub closed spec fn with_exit(self, d: Direction, dest: RoomId) -> RoomGraphNode {
        match d {
            Direction::North => RoomGraphNode { north: Some(dest), ..self },
            Direction::South => RoomGraphNode { south: Some(dest), ..self },
            Direction::East => RoomGraphNode { east: Some(dest), ..self },
            Direction::West => RoomGraphNode { west: Some(dest), ..self },
        }
    }

    /// This node without an exit in direction `d`.
    pub closed spec fn without_exit(self, d: Direction) -> RoomGraphNode {
        match d {
            Direction::North => RoomGraphNode { north: None, ..self },
            Direction::South => RoomGraphNode { south: None, ..self },
            Direction::East => RoomGraphNode { east: None, ..self },
            Direction::West => RoomGraphNode { west: None, ..self },
        }
    }

    /// Adding an exit to a node adds it to the node's exits.
    pub broadcast proof fn lemma_with_exit(self, d: Direction, dest: RoomId)
        ensures
            #[trigger] self.with_exit(d, dest)@ == self@.insert(d, dest),
    {
        assert(self.with_exit(d, dest)@ =~= self@.insert(d, dest));
    }

    /// A node is determined by its exits.
    pub proof fn law_node_determined_by_exits(self, other: RoomGraphNode)
        requires
            self@ == other@,
        ensures
            self == other,
    {
        assert forall|d: Direction| #[trigger] self.slot(d) == other.slot(d) by {
            assert(self.exit_map().contains_key(d) == other.exit_map().contains_key(d));
            if self.slot(d) is Some {
                assert(self.exit_map()[d] == other.exit_map()[d]);
            }
        }
        assert(self.slot(Direction::North) == other.slot(Direction::North));
        assert(self.slot(Direction::South) == other.slot(Direction::South));
        assert(self.slot(Direction::East) == other.slot(Direction::East));
        assert(self.slot(Direction::West) == other.slot(Direction::West));
    }

    /// Removing an exit that was just added to a node without one gives the node back.
    pub proof fn law_remove_undoes_set(self, d: Direction, dest: RoomId)
        requires
            !self@.contains_key(d),
        ensures
            self.with_exit(d, dest).without_exit(d) == self,
    {
        assert(self.slot(d) is None);
    }

    pub fn set_exit(&mut self, direction: Direction, destination: RoomId)
        ensures
            *final(self) == old(self).with_exit(direction, destination),
            final(self)@ == old(self)@.insert(direction, destination),
    {
        match direction {
            Direction::North => self.north = Some(destination),
            Direction::South => self.south = Some(destination),
            Direction::East => self.east = Some(destination),
            Direction::West => self.west = Some(destination),
        }
        assert(self@ =~= old(self)@.insert(direction, destination));
    }

    pub fn remove_exit(&mut self, direction: &Direction)
        ensures
            *final(self) == old(self).without_exit(*direction),
            final(self)@ == old(self)@.remove(*direction),
    {
        match direction {
            Direction::North => self.north = None,
            Direction::South => self.south = None,
            Direction::East => self.east = None,
            Direction::West => self.west = None,
        }
        assert(self@ =~= old(self)@.remove(*direction));
    }

    /// The directions with an exit.
    pub fn exits(&self) -> (r: Vec<Direction>)
        ensures
            r@ == self.exit_list(),
    {
        let mut r: Vec<Direction> = Vec::new();
        if self.north.is_some() {
            r.push(Direction::North);
        }
        if self.south.is_some() {
            r.push(Direction::South);
        }
        if self.east.is_some() {
            r.push(Direction::East);
        }
        if self.west.is_some() {
            r.push(Direction::West);
        }
        assert(r@ =~= self.exit_list());
        r
    }

    pub fn has_exit(&self, direction: &Direction) -> (r: bool)
        ensures
            r == self@.contains_key(*direction),
    {
        self.get_destination(*direction).is_some()
    }
}

/// All rooms of the world by identifier, and the room where new players start.
pub struct RoomGraph {
    rooms: HashMap<u128, RoomGraphNode>,
    starting_room: RoomId,
}

impl RoomGraph {
    pub closed spec fn room_map(&self) -> Map<RoomId, RoomGraphNode> {
        Map::new(
            |id: RoomId| self.rooms@.contains_key(id.entity.uuid),
            |id: RoomId| self.rooms@[id.entity.uuid],
        )
    }

    pub closed spec fn starting_room(&self) -> RoomId {
        self.starting_room
    }
}

impl View for RoomGraph {
    type V = Map<RoomId, RoomGraphNode>;

    open spec fn view(&self) -> Map<RoomId, RoomGraphNode> {
        self.room_map()
    }
}

impl RoomGraph {
    pub fn new(starting_room: RoomId) -> (graph: RoomGraph)
        ensures
            graph@ == Map::<RoomId, RoomGraphNode>::empty(),
            graph.starting_room() == starting_room,
    {
        let graph = RoomGraph { rooms: HashMap::new(), starting_room };
        assert(graph@ =~= Map::<RoomId, RoomGraphNode>::empty());
        graph
    }

    pub fn get_room(&self, id: &RoomId) -> (r: Option<RoomGraphNode>)
        ensures
            r == (if self@.contains_key(*id) { Some(self@[*id]) } else { None::<RoomGraphNode> }),
    {
        match self.rooms.get(&id.entity.uuid) {
            Some(room) => Some(*room),
            None => None,
        }
    }

    pub fn update_room(&mut self, id: RoomId, room: RoomGraphNode)
        ensures
            final(self)@ == old(self)@.insert(id, room),
            final(self).starting_room() == old(self).starting_room(),
    {
        self.rooms.insert(id.entity.uuid, room);
        assert(self@ =~= old(self)@.insert(id, room));
    }

    /// Every room with its identifier, each room once.
    pub fn rooms(&self) -> (r: Vec<(RoomId, RoomGraphNode)>)
        ensures
            forall|i: int| 0 <= i < r@.len() ==> #[trigger] self@.contains_key(r@[i].0) && self@[r@[i].0] == r@[i].1,
            forall|id: RoomId| #[trigger] self@.contains_key(id) ==> exists|i: int| 0 <= i < r@.len() && r@[i].0 == id,
            forall|i: int, j: int| 0 <= i < j < r@.len() ==> r@[i].0 != r@[j].0,
    {
        let mut r: Vec<(RoomId, RoomGraphNode)> = Vec::new();
        let ghost sq = self.rooms.keys().remaining().unref();
        for k in it: self.rooms.keys()
            invariant
                it.seq().unref() == sq,
                it.index() <= sq.len(),
                sq.no_duplicates(),
                sq.to_set() == self.rooms@.dom(),
                r@.len() == it.index(),
                forall|i: int| 0 <= i < r@.len() ==> r@[i].0.entity.uuid == sq[i] && self.rooms@[sq[i]] == r@[i].1,
        {
            assert(sq.contains(sq[it.index()]));
            let node = *self.rooms.get(k).unwrap();
            r.push((RoomId::from_uuid(*k), node));
        }
        proof {
            assert forall|id: RoomId| #[trigger] self@.contains_key(id) implies exists|i: int| 0 <= i < r@.len() && r@[i].0 == id by {
                assert(sq.to_set().contains(id.entity.uuid));
                let i = choose|i: int| 0 <= i < sq.len() && sq[i] == id.entity.uuid;
                assert(r@[i].0 == id);
            }
            assert forall|i: int| 0 <= i < r@.len() implies #[trigger] self@.contains_key(r@[i].0) && self@[r@[i].0] == r@[i].1 by {
                assert(sq.to_set().contains(sq[i]));
            }
            assert forall|i: int, j: int| 0 <= i < j < r@.len() implies r@[i].0 != r@[j].0 by {
                assert(sq[i] != sq[j]);
            }
        }
        r
    }

    pub fn default_room_id(&self) -> (id: RoomId)
        ensures
            id == self.starting_room(),
    {
        self.starting_room
    }
}

} // verus!
