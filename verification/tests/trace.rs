use mcsim::common::EntityId;
use mcsim::trace::{is_traced, reception_status, trace_origin, trace_timestamp, TraceKind};

#[test]
fn timestamps_count_from_the_start_of_2025() {
    assert_eq!(trace_timestamp(0), "2025-01-01T00:00:00.000Z");
    // 1 h 2 min 3.456789 s
    assert_eq!(trace_timestamp(3_723_456_789), "2025-01-01T01:02:03.457Z");
    // hours wrap at a day
    assert_eq!(trace_timestamp(25 * 3_600_000_000), "2025-01-01T01:00:00.000Z");
    // seconds rounded to the millisecond
    assert_eq!(trace_timestamp(1_234_499), "2025-01-01T00:00:01.234Z");
    assert_eq!(trace_timestamp(1_234_500), "2025-01-01T00:00:01.235Z");
    assert_eq!(trace_timestamp(59_999_600), "2025-01-01T00:00:60.000Z");
}

#[test]
fn origins_by_name_or_id() {
    let names = vec![(3u64, "Alice".to_string()), (5u64, "Bob".to_string()), (3u64, "Other".to_string())];
    assert_eq!(trace_origin(&names, EntityId(3)), "Alice");
    assert_eq!(trace_origin(&names, EntityId(5)), "Bob");
    assert_eq!(trace_origin(&names, EntityId(42)), "Entity_42");
    assert_eq!(trace_origin(&[], EntityId(0)), "Entity_0");
}

#[test]
fn reception_status_prefers_collision() {
    assert_eq!(reception_status(true, true), "collided");
    assert_eq!(reception_status(true, false), "collided");
    assert_eq!(reception_status(false, true), "weak");
    assert_eq!(reception_status(false, false), "ok");
}

#[test]
fn only_known_kinds_are_traced() {
    assert!(is_traced(TraceKind::TransmitAir));
    assert!(is_traced(TraceKind::RadioRxPacket));
    assert!(is_traced(TraceKind::MessageSend));
    assert!(is_traced(TraceKind::MessageReceived));
    assert!(is_traced(TraceKind::Timer));
    assert!(!is_traced(TraceKind::Other));
}
