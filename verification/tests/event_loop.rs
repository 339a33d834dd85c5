use mcsim::common::EntityId;
use mcsim::context::SimContext;
use mcsim::event_loop::{after_dispatch, inject_now, next_due_step, next_step, EventQueue, EvictionSchedule, LoopStep, END_EVENT_ID};
use mcsim::sim_time::SimTime;
use mcsim::stats::{NodeStats, SimulationStats, StatsEvent};
use std::collections::HashMap;

#[test]
fn events_come_out_earliest_first_then_by_id() {
    let mut ctx: SimContext<&str> = SimContext::new(3);
    ctx.post_event(SimTime::from_micros(30), vec![], "c");
    ctx.post_event(SimTime::from_micros(10), vec![], "a1");
    ctx.post_event(SimTime::from_micros(10), vec![], "a2");
    let mut q = EventQueue::new();
    for e in ctx.take_pending_events() {
        q.push(e);
    }
    q.schedule_end(SimTime::from_micros(20), "end");
    assert_eq!(q.len(), 4);
    let mut order = vec![];
    loop {
        match next_step(&mut q, &mut ctx, false) {
            LoopStep::Dispatch(e) => {
                assert_eq!(ctx.time(), e.time);
                order.push(e.payload);
            }
            LoopStep::Stop => break,
        }
    }
    // the end marker at 20 stops the loop before the event at 30
    assert_eq!(order, vec!["a1", "a2"]);
    assert_eq!(q.len(), 1);
    assert_eq!(END_EVENT_ID, u64::MAX);
}

#[test]
fn stop_request_and_empty_queue_stop() {
    let mut ctx: SimContext<u8> = SimContext::new(1);
    let mut q: EventQueue<u8> = EventQueue::new();
    assert!(matches!(next_step(&mut q, &mut ctx, false), LoopStep::Stop));
    ctx.post_immediate(vec![EntityId(1)], 7);
    for e in ctx.take_pending_events() {
        q.push(e);
    }
    assert!(matches!(next_step(&mut q, &mut ctx, true), LoopStep::Stop));
    assert!(q.is_empty());
}

#[test]
fn dispatch_moves_posted_events_and_counts() {
    let mut ctx: SimContext<u8> = SimContext::new(1);
    let mut q: EventQueue<u8> = EventQueue::new();
    let mut stats = SimulationStats::default();
    let mut node_stats: HashMap<u64, NodeStats> = HashMap::new();
    node_stats.insert(2, NodeStats::default());
    let f2r: HashMap<u64, u64> = HashMap::new();
    ctx.post_immediate(vec![EntityId(1)], 1);
    ctx.post_event(SimTime::from_micros(5), vec![EntityId(1)], 2);
    after_dispatch(&mut q, &mut ctx, &mut stats, &mut node_stats, &f2r, &StatsEvent::Transmitted { radio_id: 2 });
    assert_eq!(q.len(), 2);
    assert!(ctx.take_pending_events().is_empty());
    assert_eq!(stats.total_events, 1);
    assert_eq!(stats.packets_transmitted, 1);
    assert_eq!(node_stats[&2].tx, 1);
}

#[test]
fn eviction_at_most_once_per_age() {
    let mut s = EvictionSchedule { max_age_us: Some(100), last_eviction_us: 0 };
    assert!(!s.due(50));
    assert!(s.due(100));
    assert_eq!(s.last_eviction_us, 100);
    assert!(!s.due(150));
    assert!(s.due(250));
    let mut never = EvictionSchedule { max_age_us: None, last_eviction_us: 0 };
    assert!(!never.due(u64::MAX));
}

#[test]
fn order_does_not_depend_on_insertion_order() {
    let mut ctx: SimContext<u32> = SimContext::new(1);
    ctx.post_event(SimTime::from_micros(5), vec![], 0);
    ctx.post_event(SimTime::from_micros(5), vec![], 1);
    ctx.post_event(SimTime::from_micros(2), vec![], 2);
    ctx.post_event(SimTime::from_micros(9), vec![], 3);
    let events = ctx.take_pending_events();
    let mut forward = EventQueue::new();
    let mut backward = EventQueue::new();
    for e in events.iter() {
        forward.push(e.clone());
    }
    for e in events.iter().rev() {
        backward.push(e.clone());
    }
    let mut a = vec![];
    let mut b = vec![];
    while let Some(e) = forward.pop() {
        a.push(e.payload);
    }
    while let Some(e) = backward.pop() {
        b.push(e.payload);
    }
    assert_eq!(a, vec![2, 0, 1, 3]);
    assert_eq!(a, b);
}

#[test]
fn real_time_steps_stop_at_the_target() {
    let mut ctx: SimContext<u32> = SimContext::new(1);
    ctx.post_event(SimTime::from_micros(5), vec![], 0);
    ctx.post_event(SimTime::from_micros(9), vec![], 1);
    let mut q = EventQueue::new();
    for e in ctx.take_pending_events() {
        q.push(e);
    }
    let target = SimTime::from_micros(7);
    match next_due_step(&mut q, &mut ctx, target, false) {
        LoopStep::Dispatch(e) => assert_eq!(e.payload, 0),
        LoopStep::Stop => panic!("an event is due"),
    }
    assert_eq!(ctx.time(), SimTime::from_micros(5));
    assert!(matches!(next_due_step(&mut q, &mut ctx, target, false), LoopStep::Stop));
    assert_eq!(q.len(), 1);
    assert_eq!(ctx.time(), SimTime::from_micros(5));
    // stopping leaves the due event waiting
    assert!(matches!(next_due_step(&mut q, &mut ctx, SimTime::from_micros(20), true), LoopStep::Stop));
    assert_eq!(q.len(), 1);
    // input injected now, under the next id, comes first
    assert_eq!(ctx.upcoming_event_id(), 2);
    inject_now(&mut q, &mut ctx, EntityId(4), 7);
    match next_due_step(&mut q, &mut ctx, SimTime::from_micros(20), false) {
        LoopStep::Dispatch(e) => {
            assert_eq!(e.payload, 7);
            assert_eq!(e.id.0, 2);
            assert_eq!(e.time, SimTime::from_micros(5));
            assert_eq!(e.source, EntityId(4));
            assert_eq!(e.targets, vec![EntityId(4)]);
        }
        LoopStep::Stop => panic!("the injected event is due"),
    }
}
