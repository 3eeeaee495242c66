//! Keeping entity positions in the database: which positions a persistence pass writes.
use vstd::prelude::*;
use crate::entities::{lists, ComponentKind, EntityRegistry, Location};
use crate::model::ids::EntityId;

verus! {

/// The system that writes the position of every located entity to the database on each
/// tick of the game loop. Since it only runs once per tick, a change made between the
/// last tick and a crash is lost; positions change rarely enough for that to be
/// acceptable.
pub struct PersistenceSystem;

impl PersistenceSystem {
    pub fn name(&self) -> (s: &'static str)
        ensures
            s@ == "PersistenceSystem"@,
    {
        "PersistenceSystem"
    }

    /// The positions that one pass writes: every entity that has a location, once, with it.
    pub fn positions(&self, entities: &EntityRegistry) -> (r: Vec<(EntityId, Location)>)
        ensures
            lists(r@, entities.table(ComponentKind::Location), |e: EntityId| true),
    {
        entities.query::<Location>()
    }
}

} // verus!
