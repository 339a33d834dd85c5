//! Simulation events and the context entities post them through.
//!
//! Every event gets an id from one counter, so ids are never reused: the
//! events waiting in a context carry increasing ids, all below the next id
//! to be given out.
use vstd::prelude::*;
use rand_chacha::rand_core::SeedableRng;
use rand_chacha::ChaCha8Rng;
use crate::common::{EntityId, EventId};
use crate::sim_time::SimTime;
use std::cmp::Ordering;

verus! {

/// The ChaCha random number generator with 8 rounds.
#[verifier::external_type_specification]
#[verifier::external_body]
pub struct ExChaCha8Rng(ChaCha8Rng);

/// The generator `SeedableRng::seed_from_u64` gives `ChaCha8Rng` for a
/// seed: it depends on the seed alone.
pub uninterp spec fn chacha_from_seed(seed: u64) -> ChaCha8Rng;

/// A generator seeded from a `u64` (`SeedableRng::seed_from_u64` of
/// `ChaCha8Rng`). The contract names the generator by its seed; its state
/// is opaque here.
#[verifier::external_body]
fn seeded_rng(seed: u64) -> (r: ChaCha8Rng)
    ensures
        r == chacha_from_seed(seed),
{
    ChaCha8Rng::seed_from_u64(seed)
}

/// A simulation event: when it happens, who posted it, who receives it, and
/// what it carries.
#[derive(Debug, Clone)]
pub struct Event<P> {
    /// Unique event ID.
    pub id: EventId,
    /// Time when the event occurs.
    pub time: SimTime,
    /// Entity that created the event.
    pub source: EntityId,
    /// Target entities for the event.
    pub targets: Vec<EntityId>,
    /// Event payload.
    pub payload: P,
}

/// Whether the event queue hands out `a` before `b`: the earlier event
/// first, and of two at the same time the one with the smaller id.
pub open spec fn taken_before<P>(a: Event<P>, b: Event<P>) -> bool {
    a.time@ < b.time@ || (a.time@ == b.time@ && a.id.0 < b.id.0)
}

impl<P> Event<P> {
    /// How two events compare in the simulation's event queue, which hands
    /// out its greatest element first: `Greater` for the event handed out
    /// first, `Less` for the one handed out after, `Equal` for events at the
    /// same time with the same id.
    pub fn queue_cmp(&self, other: &Event<P>) -> (o: Ordering)
        ensures
            (o is Greater) == taken_before(*self, *other),
            (o is Less) == taken_before(*other, *self),
            (o is Equal) == (self.time@ == other.time@ && self.id.0 == other.id.0),
    {
        if self.time.0 < other.time.0 {
            Ordering::Greater
        } else if other.time.0 < self.time.0 {
            Ordering::Less
        } else if self.id.0 < other.id.0 {
            Ordering::Greater
        } else if other.id.0 < self.id.0 {
            Ordering::Less
        } else {
            Ordering::Equal
        }
    }
}

/// Of two events with different ids, the queue hands out exactly one
/// first, and handing out is transitive: the order in which events are
/// processed depends on their times and ids alone.
pub proof fn lemma_queue_order_total<P>(a: Event<P>, b: Event<P>, c: Event<P>)
    ensures
        a.id.0 != b.id.0 ==> (taken_before(a, b) != taken_before(b, a)),
        !(taken_before(a, b) && taken_before(b, a)),
        taken_before(a, b) && taken_before(b, c) ==> taken_before(a, c),
{
}

/// Context passed to entities during event handling: the current time, a
/// random number generator, and the events posted so far.
pub struct SimContext<P> {
    time: SimTime,
    rng: ChaCha8Rng,
    pending_events: Vec<Event<P>>,
    next_event_id: u64,
    source_entity: EntityId,
}

impl<P> SimContext<P> {
    /// The current simulation time.
    pub closed spec fn now(&self) -> SimTime {
        self.time
    }

    /// The random number generator.
    pub closed spec fn generator(&self) -> ChaCha8Rng {
        self.rng
    }

    /// The events posted and not yet taken, oldest first.
    pub closed spec fn pending(&self) -> Seq<Event<P>> {
        self.pending_events@
    }

    /// The id the next event will get.
    pub closed spec fn next_id(&self) -> u64 {
        self.next_event_id
    }

    /// The entity on whose behalf events are posted.
    pub closed spec fn source(&self) -> EntityId {
        self.source_entity
    }

    /// The events waiting carry increasing ids, all below the next id.
    pub open spec fn ids_fresh(&self) -> bool {
        &&& forall|i: int, j: int|
            0 <= i < j < self.pending().len() ==> self.pending()[i].id.0 < self.pending()[j].id.0
        &&& forall|i: int| 0 <= i < self.pending().len() ==> self.pending()[i].id.0 < self.next_id()
    }

    /// Create a new simulation context whose generator is seeded with `seed`.
    pub fn new(seed: u64) -> (c: Self)
        ensures
            c.now() == SimTime(0),
            c.pending().len() == 0,
            c.next_id() == 0,
            c.source() == EntityId(0),
            c.generator() == chacha_from_seed(seed),
            c.ids_fresh(),
    {
        SimContext {
            time: SimTime(0),
            rng: seeded_rng(seed),
            pending_events: Vec::new(),
            next_event_id: 0,
            source_entity: EntityId(0),
        }
    }

    /// Get the current simulation time.
    pub fn time(&self) -> (t: SimTime)
        ensures
            t == self.now(),
    {
        self.time
    }

    /// Get mutable access to the random number generator.
    pub fn rng(&mut self) -> (r: &mut ChaCha8Rng)
        ensures
            *r == old(self).generator(),
            final(self).generator() == *final(r),
            final(self).now() == old(self).now(),
            final(self).pending() == old(self).pending(),
            final(self).next_id() == old(self).next_id(),
            final(self).source() == old(self).source(),
    {
        &mut self.rng
    }

    /// Set the current time (used by the event loop).
    pub fn set_time(&mut self, time: SimTime)
        ensures
            final(self).now() == time,
            final(self).generator() == old(self).generator(),
            final(self).pending() == old(self).pending(),
            final(self).next_id() == old(self).next_id(),
            final(self).source() == old(self).source(),
    {
        self.time = time;
    }

    /// Set the source entity (used by the event loop).
    pub fn set_source(&mut self, entity: EntityId)
        ensures
            final(self).source() == entity,
            final(self).now() == old(self).now(),
            final(self).generator() == old(self).generator(),
            final(self).pending() == old(self).pending(),
            final(self).next_id() == old(self).next_id(),
    {
        self.source_entity = entity;
    }

    /// Post an event to occur after a delay: it gets the next id, the
    /// current time plus the delay, and the current source.
    pub fn post_event(&mut self, delay: SimTime, targets: Vec<EntityId>, payload: P)
        requires
            old(self).now()@ + delay@ <= u64::MAX,
            old(self).next_id() < u64::MAX,
        ensures
            final(self).pending() == old(self).pending().push(
                Event {
                    id: EventId(old(self).next_id()),
                    time: SimTime((old(self).now()@ + delay@) as u64),
                    source: old(self).source(),
                    targets,
                    payload,
                },
            ),
            final(self).next_id() == old(self).next_id() + 1,
            final(self).now() == old(self).now(),
            final(self).generator() == old(self).generator(),
            final(self).source() == old(self).source(),
            old(self).ids_fresh() ==> final(self).ids_fresh(),
    {
        let event = Event {
            id: EventId(self.next_event_id),
            time: SimTime(self.time.0 + delay.0),
            source: self.source_entity,
            targets,
            payload,
        };
        self.next_event_id = self.next_event_id + 1;
        self.pending_events.push(event);
    }

    /// Post an event to occur immediately (at the current time).
    pub fn post_immediate(&mut self, targets: Vec<EntityId>, payload: P)
        requires
            old(self).next_id() < u64::MAX,
        ensures
            final(self).pending() == old(self).pending().push(
                Event {
                    id: EventId(old(self).next_id()),
                    time: old(self).now(),
                    source: old(self).source(),
                    targets,
                    payload,
                },
            ),
            final(self).next_id() == old(self).next_id() + 1,
            final(self).now() == old(self).now(),
            final(self).generator() == old(self).generator(),
            final(self).source() == old(self).source(),
            old(self).ids_fresh() ==> final(self).ids_fresh(),
    {
        self.post_event(SimTime(0), targets, payload);
    }

    /// Take all pending events (used by the event loop), oldest first.
    pub fn take_pending_events(&mut self) -> (events: Vec<Event<P>>)
        ensures
            events@ == old(self).pending(),
            final(self).pending().len() == 0,
            final(self).now() == old(self).now(),
            final(self).generator() == old(self).generator(),
            final(self).next_id() == old(self).next_id(),
            final(self).source() == old(self).source(),
            final(self).ids_fresh(),
    {
        let mut events: Vec<Event<P>> = Vec::new();
        std::mem::swap(&mut events, &mut self.pending_events);
        events
    }

    /// The id the next event will get, without giving it out.
    pub fn upcoming_event_id(&self) -> (id: u64)
        ensures
            id == self.next_id(),
    {
        self.next_event_id
    }

    /// Give out the next event id (used by the event loop for events it
    /// creates itself).
    pub fn next_event_id(&mut self) -> (id: u64)
        requires
            old(self).next_id() < u64::MAX,
        ensures
            id == old(self).next_id(),
            final(self).next_id() == old(self).next_id() + 1,
            final(self).pending() == old(self).pending(),
            final(self).now() == old(self).now(),
            final(self).generator() == old(self).generator(),
            final(self).source() == old(self).source(),
            old(self).ids_fresh() ==> final(self).ids_fresh(),
    {
        let id = self.next_event_id;
        self.next_event_id = self.next_event_id + 1;
        id
    }
}

} // verus!
