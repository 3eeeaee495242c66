//! Runs of registry calls, and the changes that the registry has recorded after one.
use vstd::prelude::*;
use crate::model::ids::EntityId;
use crate::entities::{
    component_removed, component_updated, despawned, dirty_taken, spawned, ComponentKind, ComponentStorage,
    ComponentValue, EntityRegistry, EntityRegistryError,
};

verus! {

/// One call on the registry, with its arguments and its answer.
pub enum RegistryCall {
    /// `update_component`: the entity, the component kind, the new value, the answer.
    Update(EntityId, ComponentKind, ComponentValue, Result<(), EntityRegistryError>),
    /// `remove_component`: the entity, the component kind, the answer.
    Remove(EntityId, ComponentKind, Result<(), EntityRegistryError>),
    /// `spawn`: the identifier given (if any), the alias, the answer.
    Spawn(Option<EntityId>, Seq<char>, Result<EntityId, EntityRegistryError>),
    /// `despawn`: the entity, the answer.
    Despawn(EntityId, Result<(), EntityRegistryError>),
    /// `take_dirty`: the kind of its component type.
    Take(ComponentKind),
}

/// The effect of `take_dirty` for kind `k`, whatever it gave: the changes of that kind are
/// forgotten, and nothing else changes.
pub open spec fn kind_taken(before: &EntityRegistry, after: &EntityRegistry, k: ComponentKind) -> bool {
    &&& after.dirty_ids(k) == Set::<EntityId>::empty()
    &&& forall|j: ComponentKind| j != k ==> #[trigger] after.dirty_ids(j) == before.dirty_ids(j)
    &&& after.same_tables(before)
    &&& after.aliases() == before.aliases()
    &&& after.alias_index() == before.alias_index()
}

/// A call of `take_dirty` has the effect that `kind_taken` describes.
pub proof fn lemma_dirty_taken_is_kind_taken<T: ComponentStorage>(
    before: &EntityRegistry,
    after: &EntityRegistry,
    rows: Seq<(EntityId, T)>,
)
    requires
        dirty_taken(before, after, rows),
    ensures
        kind_taken(before, after, T::kind()),
{
}

/// `after` is what the call `c` on `before` gives.
pub open spec fn performed(before: &EntityRegistry, after: &EntityRegistry, c: RegistryCall) -> bool {
    match c {
        RegistryCall::Update(e, k, v, r) => component_updated(before, after, e, k, v, r),
        RegistryCall::Remove(e, k, r) => component_removed(before, after, e, k, r),
        RegistryCall::Spawn(id, alias, r) => spawned(before, after, id, alias, r),
        RegistryCall::Despawn(id, r) => despawned(before, after, id, r),
        RegistryCall::Take(k) => kind_taken(before, after, k),
    }
}

/// `states` is a run of `calls`: each state is what the call before it gives.
pub open spec fn is_run(states: Seq<EntityRegistry>, calls: Seq<RegistryCall>) -> bool {
    &&& states.len() == calls.len() + 1
    &&& forall|i: int| #![trigger calls[i]] 0 <= i < calls.len() ==> performed(&states[i], &states[i + 1], calls[i])
}

/// The entities whose change of kind `k` the calls leave recorded, starting from none: a
/// successful update of that kind records the entity, a successful removal of that kind
/// forgets it, and taking the changes of that kind forgets them all.
pub open spec fn recorded_changes(calls: Seq<RegistryCall>, k: ComponentKind) -> Set<EntityId>
    decreases calls.len(),
{
    if calls.len() == 0 {
        Set::empty()
    } else {
        let before = recorded_changes(calls.drop_last(), k);
        match calls.last() {
            RegistryCall::Update(e, j, _, r) => if j == k && r is Ok {
                before.insert(e)
            } else {
                before
            },
            RegistryCall::Remove(e, j, r) => if j == k && r is Ok {
                before.remove(e)
            } else {
                before
            },
            RegistryCall::Take(j) => if j == k {
                Set::empty()
            } else {
                before
            },
            _ => before,
        }
    }
}

/// Along a run that starts with no recorded change of kind `k`, the changes recorded after
/// the first `n` calls are those that `recorded_changes` gives for them.
proof fn lemma_run_records(states: Seq<EntityRegistry>, calls: Seq<RegistryCall>, k: ComponentKind, n: int)
    requires
        is_run(states, calls),
        states[0].dirty_ids(k) == Set::<EntityId>::empty(),
        0 <= n <= calls.len(),
    ensures
        states[n].dirty_ids(k) == recorded_changes(calls.take(n), k),
    decreases n,
{
    if n == 0 {
        assert(calls.take(0) =~= Seq::<RegistryCall>::empty());
    } else {
        lemma_run_records(states, calls, k, n - 1);
        assert(calls.take(n).drop_last() =~= calls.take(n - 1));
        assert(calls.take(n).last() == calls[n - 1]);
        assert(performed(&states[n - 1], &states[n], calls[n - 1]));
        match calls[n - 1] {
            RegistryCall::Update(e, j, v, r) => {
                if states[n - 1].aliases().contains_key(e) {
                    if j != k {
                        assert(states[n].dirty_ids(k) == states[n - 1].dirty_ids(k));
                    }
                } else {
                    assert(states[n].dirty_ids(k) == states[n - 1].dirty_ids(k));
                }
            },
            RegistryCall::Remove(e, j, r) => {
                if states[n - 1].aliases().contains_key(e) {
                    if j != k {
                        assert(states[n].dirty_ids(k) == states[n - 1].dirty_ids(k));
                    }
                } else {
                    assert(states[n].dirty_ids(k) == states[n - 1].dirty_ids(k));
                }
            },
            RegistryCall::Spawn(id, alias, r) => {
                assert(states[n].dirty_ids(k) == states[n - 1].dirty_ids(k));
            },
            RegistryCall::Despawn(id, r) => {
                assert(states[n].dirty_ids(k) == states[n - 1].dirty_ids(k));
            },
            RegistryCall::Take(j) => {
                if j != k {
                    assert(states[n].dirty_ids(k) == states[n - 1].dirty_ids(k));
                }
            },
        }
    }
}

/// The changes of a component type were taken, then a run of calls followed. Taking the
/// changes of that type again gives, each once and with its current component, exactly
/// the entities that still have such a component and whose change the calls left
/// recorded: updated successfully since, and neither removed successfully nor taken since.
pub proof fn law_take_dirty_after_run<T: ComponentStorage>(
    r0: &EntityRegistry,
    first: Seq<(EntityId, T)>,
    states: Seq<EntityRegistry>,
    calls: Seq<RegistryCall>,
    r2: &EntityRegistry,
    second: Seq<(EntityId, T)>,
)
    requires
        is_run(states, calls),
        dirty_taken(r0, &states[0], first),
        dirty_taken(&states.last(), r2, second),
    ensures
        forall|e: EntityId| (exists|i: int| 0 <= i < second.len() && #[trigger] second[i].0 == e)
            <==> recorded_changes(calls, T::kind()).contains(e) && states.last().table(T::kind()).contains_key(e),
        forall|i: int| 0 <= i < second.len() ==> states.last().table(T::kind())[#[trigger] second[i].0] == second[i].1.value(),
        forall|i: int, j: int| 0 <= i < j < second.len() ==> second[i].0 != second[j].0,
{
    lemma_run_records(states, calls, T::kind(), calls.len() as int);
    assert(calls.take(calls.len() as int) =~= calls);
    assert(states.last() == states[calls.len() as int]);
}

} // verus!
