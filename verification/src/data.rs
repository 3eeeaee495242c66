//! The records of the game's data files: rooms, items and NPCs, with the errors of
//! reading and writing them.
use vstd::prelude::*;
use crate::model::ids::{Alias, RoomId};
use crate::model::rooms::{exits_from_pairs, Direction};

verus! {

/// Why a data file could not be loaded.
#[derive(Clone, Copy, PartialEq, Eq, Structural, Debug)]
pub enum DataLoadError {
    FileRead,
    Deserialization,
    UuidDeserialization,
}

/// Why a data file could not be written.
#[derive(Clone, Copy, PartialEq, Eq, Structural, Debug)]
pub enum DataWriteError {
    FileWrite,
    Serialization,
}

/// The `Debug` form of a write error: the variant's name.
pub open spec fn write_error_debug(e: DataWriteError) -> Seq<char> {
    match e {
        DataWriteError::FileWrite => "FileWrite"@,
        DataWriteError::Serialization => "Serialization"@,
    }
}

impl DataWriteError {
    /// The `Debug` form of the error.
    pub fn debug_string(&self) -> (text: String)
        ensures
            text@ == write_error_debug(*self),
    {
        match self {
            DataWriteError::FileWrite => "FileWrite".to_string(),
            DataWriteError::Serialization => "Serialization".to_string(),
        }
    }
}

/// A room as the rooms file holds it.
pub struct RoomData {
    pub alias: Alias,
    pub name: String,
    pub description: String,
    /// The exits, one pair per direction.
    pub exits: Vec<(Direction, RoomId)>,
}

pub struct RoomDataView {
    pub alias: Seq<char>,
    pub name: Seq<char>,
    pub description: Seq<char>,
    pub exits: Map<Direction, RoomId>,
}

impl View for RoomData {
    type V = RoomDataView;

    open spec fn view(&self) -> RoomDataView {
        RoomDataView {
            alias: self.alias@,
            name: self.name@,
            description: self.description@,
            exits: exits_from_pairs(self.exits@),
        }
    }
}

/// An item as the items file holds it.
pub struct ItemData {
    pub alias: Alias,
    pub name: String,
    pub description: String,
    /// The alias of the room where the item spawns.
    pub spawn_location: Alias,
}

/// An NPC as the NPCs file holds it.
pub struct NpcData {
    pub alias: Alias,
    pub name: String,
    pub description: String,
    /// The alias of the room where the NPC spawns.
    pub spawn_location: Alias,
}

/// An item or NPC record with its texts as character sequences.
pub struct EntityDataView {
    pub alias: Seq<char>,
    pub name: Seq<char>,
    pub description: Seq<char>,
    pub spawn_location: Seq<char>,
}

impl View for ItemData {
    type V = EntityDataView;

    open spec fn view(&self) -> EntityDataView {
        EntityDataView {
            alias: self.alias@,
            name: self.name@,
            description: self.description@,
            spawn_location: self.spawn_location@,
        }
    }
}

impl View for NpcData {
    type V = EntityDataView;

    open spec fn view(&self) -> EntityDataView {
        EntityDataView {
            alias: self.alias@,
            name: self.name@,
            description: self.description@,
            spawn_location: self.spawn_location@,
        }
    }
}

/// The views of keyed records.
pub open spec fn keyed_views<K, T: View>(rows: Seq<(K, T)>) -> Seq<(K, T::V)> {
    rows.map_values(|r: (K, T)| (r.0, r.1@))
}

/// The rows of a scan of `items` by `f`, stopping at the first item that `f` refuses,
/// with what it answered.
pub open spec fn scan<A, B, E>(items: Seq<A>, f: spec_fn(A) -> Result<B, E>) -> Result<Seq<B>, E>
    decreases items.len(),
{
    if items.len() == 0 {
        Ok(seq![])
    } else {
        match scan(items.drop_last(), f) {
            Err(e) => Err(e),
            Ok(done) => match f(items.last()) {
                Err(e) => Err(e),
                Ok(b) => Ok(done.push(b)),
            },
        }
    }
}

/// Scanning one more item: the rows so far, and then that item's row or its refusal.
pub proof fn lemma_scan_step<A, B, E>(items: Seq<A>, f: spec_fn(A) -> Result<B, E>, i: int)
    requires
        0 <= i < items.len(),
    ensures
        scan(items.take(i + 1), f) == match scan(items.take(i), f) {
            Err(e) => Err(e),
            Ok(done) => match f(items[i]) {
                Err(e) => Err(e),
                Ok(b) => Ok::<Seq<B>, E>(done.push(b)),
            },
        },
{
    assert(items.take(i + 1).drop_last() =~= items.take(i));
    assert(items.take(i + 1).last() == items[i]);
}

/// Once a scan stops, scanning further items stops with the same answer.
pub proof fn lemma_scan_stop<A, B, E>(items: Seq<A>, f: spec_fn(A) -> Result<B, E>, i: int)
    requires
        0 <= i <= items.len(),
        scan(items.take(i), f) is Err,
    ensures
        scan(items, f) == scan(items.take(i), f),
    decreases items.len() - i,
{
    if i < items.len() {
        lemma_scan_step(items, f, i);
        lemma_scan_stop(items, f, i + 1);
    } else {
        assert(items.take(i) =~= items);
    }
}

/// A scan that succeeds gives one row per item, in order: the row that `f` makes of it.
pub proof fn lemma_scan_ok<A, B, E>(items: Seq<A>, f: spec_fn(A) -> Result<B, E>)
    requires
        scan(items, f) is Ok,
    ensures
        scan(items, f)->Ok_0.len() == items.len(),
        forall|i: int| 0 <= i < items.len() ==> #[trigger] f(items[i]) == Ok::<B, E>(scan(items, f)->Ok_0[i]),
    decreases items.len(),
{
    if items.len() > 0 {
        let init = items.drop_last();
        lemma_scan_ok(init, f);
        assert forall|i: int| 0 <= i < items.len() implies #[trigger] f(items[i]) == Ok::<B, E>(scan(items, f)->Ok_0[i]) by {
            if i < items.len() - 1 {
                assert(items[i] == init[i]);
            }
        }
    }
}

/// A scan that stops stops with the refusal that `f` gives for one of the items.
pub proof fn lemma_scan_err<A, B, E>(items: Seq<A>, f: spec_fn(A) -> Result<B, E>)
    requires
        scan(items, f) is Err,
    ensures
        exists|i: int| 0 <= i < items.len() && #[trigger] f(items[i]) == Err::<B, E>(scan(items, f)->Err_0),
    decreases items.len(),
{
    let init = items.drop_last();
    if scan(init, f) is Err {
        lemma_scan_err(init, f);
        let i = choose|i: int| 0 <= i < init.len() && #[trigger] f(init[i]) == Err::<B, E>(scan(init, f)->Err_0);
        assert(items[i] == init[i]);
    } else {
        assert(f(items[items.len() - 1]) == Err::<B, E>(scan(items, f)->Err_0));
    }
}

} // verus!
