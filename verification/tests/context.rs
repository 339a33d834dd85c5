use mcsim::common::EntityId;
use mcsim::context::{Event, SimContext};
use mcsim::sim_time::SimTime;
use rand::Rng;
use std::cmp::Ordering;
use std::collections::BinaryHeap;

/// An event in a max-heap, ordered as the simulation's queue orders them.
struct Queued(Event<u8>);

impl PartialEq for Queued {
    fn eq(&self, o: &Self) -> bool {
        self.0.queue_cmp(&o.0) == Ordering::Equal
    }
}

impl Eq for Queued {}

impl PartialOrd for Queued {
    fn partial_cmp(&self, o: &Self) -> Option<Ordering> {
        Some(self.0.queue_cmp(&o.0))
    }
}

impl Ord for Queued {
    fn cmp(&self, o: &Self) -> Ordering {
        self.0.queue_cmp(&o.0)
    }
}

#[test]
fn posted_events_get_fresh_ids_and_times() {
    let mut ctx: SimContext<&str> = SimContext::new(7);
    assert_eq!(ctx.time(), SimTime::from_micros(0));
    ctx.set_time(SimTime::from_micros(1_000));
    ctx.set_source(EntityId(3));
    ctx.post_event(SimTime::from_micros(500), vec![EntityId(4)], "later");
    ctx.post_immediate(vec![EntityId(5), EntityId(6)], "now");
    let events = ctx.take_pending_events();
    assert_eq!(events.len(), 2);
    assert_eq!((events[0].id.0, events[0].time.as_micros(), events[0].source, events[0].payload), (0, 1_500, EntityId(3), "later"));
    assert_eq!(events[0].targets, vec![EntityId(4)]);
    assert_eq!((events[1].id.0, events[1].time.as_micros(), events[1].payload), (1, 1_000, "now"));
    assert_eq!(events[1].targets, vec![EntityId(5), EntityId(6)]);
    assert!(ctx.take_pending_events().is_empty());
    // ids keep counting after the events are taken
    assert_eq!(ctx.next_event_id(), 2);
    ctx.post_immediate(vec![], "again");
    assert_eq!(ctx.take_pending_events()[0].id.0, 3);
}

#[test]
fn same_seed_same_random_numbers() {
    let mut a: SimContext<()> = SimContext::new(12345);
    let mut b: SimContext<()> = SimContext::new(12345);
    let xs: Vec<u64> = (0..8).map(|_| a.rng().gen()).collect();
    let ys: Vec<u64> = (0..8).map(|_| b.rng().gen()).collect();
    assert_eq!(xs, ys);
    let mut c: SimContext<()> = SimContext::new(54321);
    let zs: Vec<u64> = (0..8).map(|_| c.rng().gen()).collect();
    assert_ne!(xs, zs);
}

#[test]
fn queue_hands_out_earliest_then_smallest_id() {
    let mut ctx: SimContext<u8> = SimContext::new(1);
    ctx.post_event(SimTime::from_micros(20), vec![], 0);
    ctx.post_event(SimTime::from_micros(10), vec![], 1);
    ctx.post_event(SimTime::from_micros(10), vec![], 2);
    let e = ctx.take_pending_events();
    assert_eq!(e[1].queue_cmp(&e[0]), Ordering::Greater);
    assert_eq!(e[0].queue_cmp(&e[1]), Ordering::Less);
    assert_eq!(e[1].queue_cmp(&e[2]), Ordering::Greater);
    assert_eq!(e[2].queue_cmp(&e[1]), Ordering::Less);
    assert_eq!(e[2].queue_cmp(&e[2]), Ordering::Equal);
    // in a max-heap they come out earliest first, ties by id
    let mut heap = BinaryHeap::new();
    for ev in e {
        heap.push(Queued(ev));
    }
    let order: Vec<u8> = std::iter::from_fn(|| heap.pop().map(|q| q.0.payload)).collect();
    assert_eq!(order, vec![1, 2, 0]);
}

