//! The decisions of the simulation's main loop: which event comes next,
//! when the loop stops (also in real time, where events are processed up to
//! a target time set by the wall clock), the clock, where posted events go,
//! input injected from outside, the event count, and when old tracked
//! packets are evicted.
//!
//! The loop itself (dispatching an event to its entities, writing traces,
//! reporting progress) runs outside the library; each turn it asks
//! `next_step` for the event to dispatch and hands the outcome to
//! `after_dispatch`. Which event comes next depends on the waiting events'
//! times and ids alone, so a run is determined by its initial events and
//! what the entities post.
use vstd::prelude::*;
use std::collections::HashMap;
use vstd::multiset::Multiset;
use crate::common::{EntityId, EventId};
use crate::context::{taken_before, Event, SimContext};
use crate::sim_time::SimTime;
use crate::stats::{
    next_node_stats, next_stats, stats_fit, update_stats, NodeStats, SimulationStats, StatsEvent,
};

verus! {

broadcast use vstd::seq_lib::group_to_multiset_ensures;

/// The id reserved for the end-of-simulation marker: events posted through
/// a context get ids below it.
pub const END_EVENT_ID: u64 = 0xffff_ffff_ffff_ffff;

/// The waiting events of a simulation.
pub struct EventQueue<P> {
    events: Vec<Event<P>>,
}

impl<P> EventQueue<P> {
    /// The waiting events.
    pub closed spec fn contents(&self) -> Multiset<Event<P>> {
        self.events@.to_multiset()
    }

    /// An empty queue.
    pub fn new() -> (q: Self)
        ensures
            q.contents() == Multiset::<Event<P>>::empty(),
    {
        EventQueue { events: Vec::new() }
    }

    /// The number of waiting events.
    pub fn len(&self) -> (n: usize)
        ensures
            n == self.contents().len(),
    {
        self.events.len()
    }

    /// Whether no event is waiting.
    pub fn is_empty(&self) -> (b: bool)
        ensures
            b == (self.contents().len() == 0),
    {
        self.events.len() == 0
    }

    /// Add an event.
    pub fn push(&mut self, e: Event<P>)
        ensures
            final(self).contents() == old(self).contents().insert(e),
    {
        self.events.push(e);
    }

    /// Add the end-of-simulation marker: an event at `end_time` with the
    /// reserved id, from entity 0, to no one.
    pub fn schedule_end(&mut self, end_time: SimTime, payload: P)
        ensures
            exists|m: Event<P>|
                {
                    &&& m.id == EventId(END_EVENT_ID)
                    &&& m.time == end_time
                    &&& m.source == EntityId(0)
                    &&& m.targets@.len() == 0
                    &&& m.payload == payload
                    &&& final(self).contents() == old(self).contents().insert(m)
                },
    {
        let marker = Event {
            id: EventId(END_EVENT_ID),
            time: end_time,
            source: EntityId(0),
            targets: Vec::new(),
            payload,
        };
        self.push(marker);
    }

    /// Take out the event handed out first: the earliest, and of those at
    /// the same time the one with the smallest id. `None` when no event is
    /// waiting.
    pub fn pop(&mut self) -> (r: Option<Event<P>>)
        ensures
            match r {
                None => old(self).contents().len() == 0 && final(self).contents() == old(
                    self,
                ).contents(),
                Some(e) => {
                    &&& old(self).contents().contains(e)
                    &&& final(self).contents() == old(self).contents().remove(e)
                    &&& forall|x: Event<P>| #[trigger]
                        final(self).contents().contains(x) ==> !taken_before(x, e)
                },
            },
    {
        if self.events.len() == 0 {
            return None;
        }
        let mut best: usize = 0;
        let mut i: usize = 1;
        while i < self.events.len()
            invariant
                0 <= best < i <= self.events@.len(),
                forall|j: int| 0 <= j < i ==> !taken_before(#[trigger] self.events@[j], self.events@[best as int]),
            decreases self.events@.len() - i,
        {
            let a = &self.events[i];
            let b = &self.events[best];
            if a.time.0 < b.time.0 || (a.time.0 == b.time.0 && a.id.0 < b.id.0) {
                best = i;
            }
            i = i + 1;
        }
        let ghost s = self.events@;
        let e = self.events.remove(best);
        proof {
            assert forall|x: Event<P>| #[trigger] self.events@.to_multiset().contains(x) implies !taken_before(
                x,
                e,
            ) by {
                assert(self.events@.contains(x));
                let k = choose|k: int| 0 <= k < self.events@.len() && self.events@[k] == x;
                if k < best {
                    assert(s[k] == x);
                } else {
                    assert(s[k + 1] == x);
                }
            }
            assert(s.contains(e)) by {
                assert(s[best as int] == e);
            }
        }
        Some(e)
    }
}

/// When no two waiting events share an id, only one event can be handed
/// out next: whichever event `pop` takes out is determined by the waiting
/// events alone, so a run does not depend on how they are stored.
pub proof fn lemma_next_event_determined<P>(m: Multiset<Event<P>>, a: Event<P>, b: Event<P>)
    requires
        forall|x: Event<P>, y: Event<P>|
            #![trigger m.contains(x), m.contains(y)]
            m.contains(x) && m.contains(y) && x.id == y.id ==> x == y,
        m.contains(a),
        m.contains(b),
        forall|x: Event<P>| #[trigger] m.remove(a).contains(x) ==> !taken_before(x, a),
        forall|x: Event<P>| #[trigger] m.remove(b).contains(x) ==> !taken_before(x, b),
    ensures
        a == b,
{
    if a != b {
        assert(m.remove(a).count(b) == m.count(b));
        assert(m.remove(b).count(a) == m.count(a));
        assert(m.remove(a).contains(b));
        assert(m.remove(b).contains(a));
        crate::context::lemma_queue_order_total(a, b, b);
    }
}

/// What the loop does next.
pub enum LoopStep<P> {
    /// Stop the loop.
    Stop,
    /// Dispatch this event to its targets.
    Dispatch(Event<P>),
}

/// The next step of the loop: take out the event handed out first; stop if
/// none is waiting, if stopping was requested, or if it is the end marker;
/// otherwise advance the clock to its time and dispatch it.
pub fn next_step<P>(q: &mut EventQueue<P>, ctx: &mut SimContext<P>, stop_requested: bool) -> (s: LoopStep<P>)
    ensures
        old(q).contents().len() == 0 ==> s is Stop && final(q).contents() == old(q).contents(),
        old(q).contents().len() > 0 ==> exists|e: Event<P>|
            {
                &&& old(q).contents().contains(e)
                &&& final(q).contents() == old(q).contents().remove(e)
                &&& (forall|x: Event<P>| #[trigger] final(q).contents().contains(x) ==> !taken_before(x, e))
                &&& if stop_requested || e.id.0 == END_EVENT_ID {
                    s is Stop
                } else {
                    s == LoopStep::Dispatch(e)
                }
            },
        s matches LoopStep::Dispatch(e) ==> final(ctx).now() == e.time,
        s is Stop ==> final(ctx).now() == old(ctx).now(),
        final(ctx).pending() == old(ctx).pending(),
        final(ctx).next_id() == old(ctx).next_id(),
        final(ctx).source() == old(ctx).source(),
        final(ctx).generator() == old(ctx).generator(),
{
    match q.pop() {
        None => LoopStep::Stop,
        Some(e) => {
            if stop_requested || e.id.0 == END_EVENT_ID {
                LoopStep::Stop
            } else {
                ctx.set_time(e.time);
                LoopStep::Dispatch(e)
            }
        },
    }
}

/// The next step of the loop in real time, where events are processed up
/// to a target time set by the wall clock: stop if none is waiting, if
/// stopping was requested, or if the event handed out first lies after the
/// target, and then leave the queue as it was; otherwise take that event
/// out, advance the clock to its time and dispatch it.
pub fn next_due_step<P>(q: &mut EventQueue<P>, ctx: &mut SimContext<P>, target: SimTime, stop_requested: bool) -> (s: LoopStep<P>)
    ensures
        old(q).contents().len() == 0 ==> s is Stop && final(q).contents() == old(q).contents(),
        old(q).contents().len() > 0 ==> exists|e: Event<P>|
            {
                &&& old(q).contents().contains(e)
                &&& (forall|x: Event<P>| #[trigger] old(q).contents().remove(e).contains(x) ==> !taken_before(x, e))
                &&& if stop_requested || e.time@ > target@ {
                    s is Stop && final(q).contents() == old(q).contents()
                } else {
                    s == LoopStep::Dispatch(e) && final(q).contents() == old(q).contents().remove(e)
                }
            },
        s matches LoopStep::Dispatch(e) ==> final(ctx).now() == e.time,
        s is Stop ==> final(ctx).now() == old(ctx).now(),
        final(ctx).pending() == old(ctx).pending(),
        final(ctx).next_id() == old(ctx).next_id(),
        final(ctx).source() == old(ctx).source(),
        final(ctx).generator() == old(ctx).generator(),
{
    let ghost before = q.contents();
    match q.pop() {
        None => LoopStep::Stop,
        Some(e) => {
            if stop_requested || e.time.as_micros() > target.as_micros() {
                q.push(e);
                assert(q.contents() =~= before);
                LoopStep::Stop
            } else {
                ctx.set_time(e.time);
                LoopStep::Dispatch(e)
            }
        },
    }
}

/// Add an event for `entity`, from itself, at the current time and under
/// the context's next event id (input arriving from outside the
/// simulation, such as serial data).
pub fn inject_now<P>(q: &mut EventQueue<P>, ctx: &mut SimContext<P>, entity: EntityId, payload: P)
    requires
        old(ctx).next_id() < u64::MAX,
    ensures
        exists|ev: Event<P>|
            {
                &&& ev.id == EventId(old(ctx).next_id())
                &&& ev.time == old(ctx).now()
                &&& ev.source == entity
                &&& ev.targets@ == seq![entity]
                &&& ev.payload == payload
                &&& final(q).contents() == old(q).contents().insert(ev)
            },
        final(ctx).next_id() == old(ctx).next_id() + 1,
        final(ctx).now() == old(ctx).now(),
        final(ctx).pending() == old(ctx).pending(),
        final(ctx).source() == old(ctx).source(),
        final(ctx).generator() == old(ctx).generator(),
{
    let id = ctx.next_event_id();
    let time = ctx.time();
    let mut targets: Vec<EntityId> = Vec::new();
    targets.push(entity);
    q.push(Event { id: EventId(id), time, source: entity, targets, payload });
}

/// After an event was dispatched: the events the entities posted move into
/// the queue, the event is counted, and the statistics take in what the
/// event was.
pub fn after_dispatch<P>(
    q: &mut EventQueue<P>,
    ctx: &mut SimContext<P>,
    stats: &mut SimulationStats,
    node_stats: &mut HashMap<u64, NodeStats>,
    firmware_to_radio: &HashMap<u64, u64>,
    event: &StatsEvent,
)
    requires
        old(stats).total_events < u64::MAX,
        stats_fit(*old(stats), old(node_stats)@, firmware_to_radio@, *event),
    ensures
        final(q).contents() == old(q).contents().add(old(ctx).pending().to_multiset()),
        final(ctx).pending().len() == 0,
        final(ctx).now() == old(ctx).now(),
        final(ctx).next_id() == old(ctx).next_id(),
        final(ctx).source() == old(ctx).source(),
        final(ctx).generator() == old(ctx).generator(),
        *final(stats) == next_stats(
            SimulationStats { total_events: (old(stats).total_events + 1) as u64, ..*old(stats) },
            *event,
        ),
        final(node_stats)@ == next_node_stats(old(node_stats)@, firmware_to_radio@, *event),
{
    let mut posted = ctx.take_pending_events();
    let ghost s0 = q.events@;
    let ghost p0 = posted@;
    q.events.append(&mut posted);
    proof {
        vstd::seq_lib::lemma_multiset_commutative(s0, p0);
    }
    stats.total_events = stats.total_events + 1;
    update_stats(stats, node_stats, firmware_to_radio, event);
}

/// When old tracked packets are evicted: at most once per eviction age,
/// never when no age is set.
pub struct EvictionSchedule {
    /// Maximum packet age in microseconds, or `None` to never evict.
    pub max_age_us: Option<u64>,
    /// Simulation time of the last eviction, in microseconds.
    pub last_eviction_us: u64,
}

impl EvictionSchedule {
    /// Whether to evict at time `now_us`: an age is set and at least that
    /// much time has passed since the last eviction, which then becomes now.
    pub fn due(&mut self, now_us: u64) -> (b: bool)
        ensures
            b == (old(self).max_age_us matches Some(age) && now_us >= old(self).last_eviction_us + age),
            final(self).max_age_us == old(self).max_age_us,
            final(self).last_eviction_us == if b {
                now_us
            } else {
                old(self).last_eviction_us
            },
    {
        match self.max_age_us {
            Some(age) => {
                if now_us >= self.last_eviction_us && now_us - self.last_eviction_us >= age {
                    self.last_eviction_us = now_us;
                    true
                } else {
                    false
                }
            },
            None => false,
        }
    }
}

} // verus!
