//! Game events and the targets they are delivered to.
use vstd::prelude::*;
use std::collections::HashMap;
use tokio::sync::mpsc::{Receiver, Sender};
use crate::entities::Location;
use crate::model::ids::EntityId;

verus! {

/// Who receives an event: one entity, or every entity at a location but one.
#[derive(Clone, Copy, PartialEq, Eq, Structural, Debug)]
pub enum EventTarget {
    Entity(EntityId),
    LocationExcept(Location, EntityId),
}

#[derive(Debug)]
pub enum GameEvent {
    Message(String),
    SessionEnded,
}

impl Clone for GameEvent {
    fn clone(&self) -> (copy: GameEvent)
        ensures
            copy == *self,
    {
        match self {
            GameEvent::Message(s) => GameEvent::Message(s.clone()),
            GameEvent::SessionEnded => GameEvent::SessionEnded,
        }
    }
}

pub enum GameEventView {
    Message(Seq<char>),
    SessionEnded,
}

impl View for GameEvent {
    type V = GameEventView;

    open spec fn view(&self) -> GameEventView {
        match self {
            GameEvent::Message(s) => GameEventView::Message(s@),
            GameEvent::SessionEnded => GameEventView::SessionEnded,
        }
    }
}

pub struct Event {
    pub target: EventTarget,
    pub event: GameEvent,
}

pub struct EventView {
    pub target: EventTarget,
    pub event: GameEventView,
}

impl View for Event {
    type V = EventView;

    open spec fn view(&self) -> EventView {
        EventView { target: self.target, event: self.event@ }
    }
}

pub enum EventBusError {
    InvalidMutex,
    CouldNotSend,
}

/// Resolves an event target to the entities that receive the event.
pub trait EventTargetResolver<T> {
    fn resolve(&self, target: &EventTarget) -> Result<Vec<EntityId>, T>;
}

/// The sending half of a `tokio` bounded channel.
#[verifier::external_type_specification]
#[verifier::external_body]
#[verifier::reject_recursive_types(T)]
pub struct ExSender<T>(tokio::sync::mpsc::Sender<T>);

/// The receiving half of a `tokio` bounded channel.
#[verifier::external_type_specification]
#[verifier::external_body]
#[verifier::reject_recursive_types(T)]
pub struct ExReceiver<T>(tokio::sync::mpsc::Receiver<T>);

/// Calls `tokio::sync::mpsc::channel`, which opens a bounded channel and panics on a
/// capacity of 0 or above `Semaphore::MAX_PERMITS` (`usize::MAX >> 3`); `requires`
/// leaves those out. Nothing is claimed of the two halves.
#[verifier::external_body]
fn open_channel(buffer: usize) -> (Sender<GameEvent>, Receiver<GameEvent>)
    requires
        0 < buffer <= usize::MAX / 8,
{
    tokio::sync::mpsc::channel(buffer)
}

/// The targets, in order, that are in `subscribed`.
pub open spec fn subscribed_targets(targets: Seq<EntityId>, subscribed: Set<EntityId>) -> Seq<EntityId>
    decreases targets.len(),
{
    if targets.len() == 0 {
        seq![]
    } else {
        let rest = subscribed_targets(targets.drop_last(), subscribed);
        if subscribed.contains(targets.last()) {
            rest.push(targets.last())
        } else {
            rest
        }
    }
}

/// The channels through which subscribed entities receive game events.
pub struct EventBus {
    subscribers: HashMap<u128, Sender<GameEvent>>,
}

/// The capacity of each subscriber's channel.
pub const BUFFER_SIZE: usize = 32;

impl View for EventBus {
    /// The subscribed entities.
    type V = Set<EntityId>;

    closed spec fn view(&self) -> Set<EntityId> {
        Set::new(|e: EntityId| self.subscribers@.contains_key(e.uuid))
    }
}

impl EventBus {
    /// The sending end of the channel of a subscribed entity.
    pub closed spec fn sender(&self, e: EntityId) -> Sender<GameEvent> {
        self.subscribers@[e.uuid]
    }

    /// Every subscribed entity other than `id` keeps the channel it had in `before`.
    pub open spec fn keeps_others(&self, before: &EventBus, id: EntityId) -> bool {
        forall|e: EntityId| e != id && #[trigger] before@.contains(e) ==> self.sender(e) == before.sender(e)
    }

    pub fn new() -> (bus: EventBus)
        ensures
            bus@ == Set::<EntityId>::empty(),
    {
        let bus = EventBus { subscribers: HashMap::new() };
        assert(bus@ =~= Set::<EntityId>::empty());
        bus
    }

    /// Subscribes an entity (again, replacing an earlier channel) and gives the receiving
    /// end of its new channel.
    pub fn register(&mut self, id: &EntityId) -> (receiver: Receiver<GameEvent>)
        ensures
            final(self)@ == old(self)@.insert(*id),
            final(self).keeps_others(old(self), *id),
    {
        let (sender, receiver) = open_channel(BUFFER_SIZE);
        self.subscribers.insert(id.uuid, sender);
        assert(self@ =~= old(self)@.insert(*id));
        receiver
    }

    /// Ends the subscription of an entity, if it has one.
    pub fn unregister(&mut self, id: &EntityId)
        ensures
            final(self)@ == old(self)@.remove(*id),
            final(self).keeps_others(old(self), *id),
    {
        self.subscribers.remove(&id.uuid);
        assert(self@ =~= old(self)@.remove(*id));
    }

    /// The subscribed targets, in order, each with the sending end of its own channel.
    pub fn resolve_targets<'a>(&'a self, targets: &[EntityId]) -> (r: Vec<(EntityId, &'a Sender<GameEvent>)>)
        ensures
            r@.map_values(|x: (EntityId, &Sender<GameEvent>)| x.0) == subscribed_targets(targets@, self@),
            forall|i: int| 0 <= i < r@.len() ==> *(#[trigger] r@[i]).1 == self.sender(r@[i].0),
    {
        let mut r: Vec<(EntityId, &'a Sender<GameEvent>)> = Vec::new();
        let mut i: usize = 0;
        assert(targets@.take(0) =~= Seq::<EntityId>::empty());
        while i < targets.len()
            invariant
                i <= targets.len(),
                r@.map_values(|x: (EntityId, &Sender<GameEvent>)| x.0) == subscribed_targets(targets@.take(i as int), self@),
                forall|k: int| 0 <= k < r@.len() ==> *(#[trigger] r@[k]).1 == self.sender(r@[k].0),
            decreases targets.len() - i,
        {
            let t = targets[i];
            assert(targets@.take(i + 1).drop_last() =~= targets@.take(i as int));
            assert(targets@.take(i + 1).last() == t);
            let ghost prev = r@;
            match self.subscribers.get(&t.uuid) {
                Some(sender) => {
                    r.push((t, sender));
                    assert(r@.map_values(|x: (EntityId, &Sender<GameEvent>)| x.0)
                        =~= prev.map_values(|x: (EntityId, &Sender<GameEvent>)| x.0).push(t));
                },
                None => {},
            }
            i = i + 1;
        }
        assert(targets@.take(targets.len() as int) =~= targets@);
        r
    }
}

/// An event published to some targets reaches exactly those of them that are subscribed.
pub proof fn law_published_to_subscribed(targets: Seq<EntityId>, subscribed: Set<EntityId>, e: EntityId)
    ensures
        subscribed_targets(targets, subscribed).contains(e) <==> targets.contains(e) && subscribed.contains(e),
    decreases targets.len(),
{
    if targets.len() > 0 {
        law_published_to_subscribed(targets.drop_last(), subscribed, e);
        let rest = subscribed_targets(targets.drop_last(), subscribed);
        assert(targets =~= targets.drop_last().push(targets.last()));
        if subscribed.contains(targets.last()) {
            assert(rest.push(targets.last()).contains(e) <==> rest.contains(e) || e == targets.last()) by {
                if rest.push(targets.last()).contains(e) {
                    let i = choose|i: int| 0 <= i < rest.len() + 1 && rest.push(targets.last())[i] == e;
                    if i < rest.len() {
                        assert(rest[i] == e);
                    }
                }
                if rest.contains(e) {
                    let i = choose|i: int| 0 <= i < rest.len() && rest[i] == e;
                    assert(rest.push(targets.last())[i] == e);
                }
                if e == targets.last() {
                    assert(rest.push(targets.last())[rest.len() as int] == e);
                }
            }
        }
        assert(targets.contains(e) <==> targets.drop_last().contains(e) || e == targets.last()) by {
            if targets.contains(e) {
                let i = choose|i: int| 0 <= i < targets.len() && targets[i] == e;
                if i < targets.len() - 1 {
                    assert(targets.drop_last()[i] == e);
                }
            }
            if targets.drop_last().contains(e) {
                let i = choose|i: int| 0 <= i < targets.len() - 1 && targets.drop_last()[i] == e;
                assert(targets[i] == e);
            }
        }
    }
}

} // verus!
