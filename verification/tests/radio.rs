use mcsim::common::{EntityId, LoraPacket, RadioState};
use mcsim::lora::{calculate_time_on_air, default_radio_params, RadioConfig};
use mcsim::radio::{
    Capture, Radio, RadioAction, RadioInput, TIMER_RX_COMPLETE_BASE, TIMER_RX_TURNAROUND_COMPLETE,
    TIMER_TX_TURNAROUND_COMPLETE,
};
use mcsim::sim_time::SimTime;

fn radio() -> Radio {
    let config = RadioConfig { graph_entity: EntityId(7), ..RadioConfig::default() };
    Radio::new(EntityId(1), config, EntityId(2))
}

fn timer(id: u64) -> RadioInput {
    RadioInput::Timer { timer_id: id, signal_ok: true }
}

fn arrive(bytes: &[u8], source: u64, end_us: u64, captures: Vec<Capture>) -> RadioInput {
    RadioInput::ReceiveAir {
        packet: LoraPacket::from_bytes(bytes.to_vec()),
        source_radio_id: EntityId(source),
        end_time: SimTime::from_micros(end_us),
        captures,
    }
}

#[test]
fn transmission_cycle() {
    let mut r = radio();
    assert!(!r.is_transmitting());
    assert_eq!(r.state_version(), 0);
    assert_eq!(r.attached_firmware(), EntityId(2));

    let a = r.handle(SimTime::from_micros(1_000), RadioInput::TxRequest(LoraPacket::from_bytes(vec![1, 2, 3])));
    assert!(r.is_transmitting());
    assert_eq!(a.len(), 1);
    assert!(matches!(a[0], RadioAction::ScheduleTimer { delay, timer_id }
        if delay == SimTime::from_micros(100) && timer_id == TIMER_TX_TURNAROUND_COMPLETE));

    let air = calculate_time_on_air(&default_radio_params(), 3);
    let a = r.handle(SimTime::from_micros(1_100), timer(TIMER_TX_TURNAROUND_COMPLETE));
    assert_eq!(a.len(), 3);
    assert!(matches!(&a[0], RadioAction::StateChanged(e)
        if e.new_state == RadioState::Transmitting && e.state_version == 1));
    match &a[1] {
        RadioAction::TransmitAir { event, turnaround } => {
            assert_eq!(event.radio_id, EntityId(1));
            assert_eq!(event.packet.payload, vec![1, 2, 3]);
            assert_eq!(event.end_time, SimTime::from_micros(1_100 + air.as_micros()));
            assert!(turnaround.is_none());
        }
        other => panic!("unexpected action {:?}", other),
    }
    assert!(matches!(a[2], RadioAction::ScheduleTimer { delay, timer_id }
        if delay.as_micros() == air.as_micros() + 100 && timer_id == TIMER_RX_TURNAROUND_COMPLETE));

    let a = r.handle(SimTime::from_micros(1_200 + air.as_micros()), timer(TIMER_RX_TURNAROUND_COMPLETE));
    assert_eq!(a.len(), 1);
    assert!(matches!(&a[0], RadioAction::StateChanged(e)
        if e.new_state == RadioState::Receiving && e.state_version == 2));
    assert!(!r.is_transmitting());
    assert_eq!(r.state_version(), 2);
}

#[test]
fn request_during_transmission_waits_and_replaces() {
    let mut r = radio();
    r.handle(SimTime::from_micros(0), RadioInput::TxRequest(LoraPacket::from_bytes(vec![1])));
    r.handle(SimTime::from_micros(100), timer(TIMER_TX_TURNAROUND_COMPLETE));
    r.handle(SimTime::from_micros(200), RadioInput::TxRequest(LoraPacket::from_bytes(vec![2])));
    r.handle(SimTime::from_micros(300), RadioInput::TxRequest(LoraPacket::from_bytes(vec![3])));
    let a = r.handle(SimTime::from_micros(90_000), timer(TIMER_RX_TURNAROUND_COMPLETE));
    assert_eq!(a.len(), 2);
    assert!(matches!(a[1], RadioAction::ScheduleTimer { timer_id, .. } if timer_id == TIMER_TX_TURNAROUND_COMPLETE));
    assert!(r.is_transmitting());
    let a = r.handle(SimTime::from_micros(90_100), timer(TIMER_TX_TURNAROUND_COMPLETE));
    match &a[1] {
        RadioAction::TransmitAir { event, turnaround } => {
            assert_eq!(event.packet.payload, vec![3]);
            assert_eq!(*turnaround, Some(SimTime::from_micros(90_000)));
        }
        other => panic!("unexpected action {:?}", other),
    }
    // no pending packet: the turnaround timer does nothing
    let mut idle = radio();
    assert!(idle.handle(SimTime::from_micros(5), timer(TIMER_TX_TURNAROUND_COMPLETE)).is_empty());
    assert!(idle.handle(SimTime::from_micros(5), timer(3)).is_empty());
}

#[test]
fn reception_outcomes() {
    let mut r = radio();
    let a = r.handle(SimTime::from_micros(1_000), arrive(&[9], 5, 11_000, vec![]));
    assert!(matches!(a[0], RadioAction::ScheduleTimer { delay, timer_id }
        if delay == SimTime::from_micros(10_000) && timer_id == TIMER_RX_COMPLETE_BASE));
    assert_eq!(r.reception_ids(), vec![0]);
    assert_eq!(r.next_reception_id(), 1);

    let a = r.handle(SimTime::from_micros(11_000), RadioInput::Timer { timer_id: TIMER_RX_COMPLETE_BASE, signal_ok: false });
    match &a[0] {
        RadioAction::RxPacket { packet, source_radio_id, reception_id, was_collided, was_weak_signal, start_time, end_time } => {
            assert_eq!(packet.payload, vec![9]);
            assert_eq!(*source_radio_id, EntityId(5));
            assert_eq!(*reception_id, 0);
            assert!(!was_collided);
            assert!(was_weak_signal);
            assert_eq!((start_time.as_micros(), end_time.as_micros()), (1_000, 11_000));
        }
        other => panic!("unexpected action {:?}", other),
    }
    assert!(r.reception_ids().is_empty());
    // delivered once
    assert!(r.handle(SimTime::from_micros(11_001), timer(TIMER_RX_COMPLETE_BASE)).is_empty());
}

fn collided(a: &[RadioAction]) -> bool {
    match &a[0] {
        RadioAction::RxPacket { was_collided, .. } => *was_collided,
        other => panic!("unexpected action {:?}", other),
    }
}

#[test]
fn capture_effect_marks_collisions() {
    // both lost
    let mut r = radio();
    r.handle(SimTime::from_micros(0), arrive(&[1], 5, 1_000, vec![]));
    r.handle(SimTime::from_micros(500), arrive(&[2], 6, 1_500, vec![Capture::BothLost]));
    assert!(collided(&r.handle(SimTime::from_micros(1_000), timer(TIMER_RX_COMPLETE_BASE))));
    assert!(collided(&r.handle(SimTime::from_micros(1_500), timer(TIMER_RX_COMPLETE_BASE + 1))));

    // the earlier, stronger one survives
    let mut r = radio();
    r.handle(SimTime::from_micros(0), arrive(&[1], 5, 1_000, vec![]));
    r.handle(SimTime::from_micros(500), arrive(&[2], 6, 1_500, vec![Capture::EarlierSurvives]));
    assert!(!collided(&r.handle(SimTime::from_micros(1_000), timer(TIMER_RX_COMPLETE_BASE))));
    assert!(collided(&r.handle(SimTime::from_micros(1_500), timer(TIMER_RX_COMPLETE_BASE + 1))));

    // no overlap: the capture outcome does not matter
    let mut r = radio();
    r.handle(SimTime::from_micros(0), arrive(&[1], 5, 1_000, vec![]));
    r.handle(SimTime::from_micros(1_000), arrive(&[2], 6, 2_000, vec![Capture::BothLost]));
    assert!(!collided(&r.handle(SimTime::from_micros(1_000), timer(TIMER_RX_COMPLETE_BASE))));
    assert!(!collided(&r.handle(SimTime::from_micros(2_000), timer(TIMER_RX_COMPLETE_BASE + 1))));
}

#[test]
fn no_reception_while_transmitting() {
    let mut r = radio();
    r.handle(SimTime::from_micros(0), RadioInput::TxRequest(LoraPacket::from_bytes(vec![1])));
    let a = r.handle(SimTime::from_micros(50), arrive(&[2], 5, 1_000, vec![]));
    assert!(a.is_empty());
    assert!(r.reception_ids().is_empty());
    assert_eq!(r.next_reception_id(), 0);
}

#[test]
fn radio_accessors() {
    let mut r = Radio::with_params(EntityId(4), default_radio_params(), EntityId(8));
    assert_eq!(*r.params(), default_radio_params());
    assert_eq!(r.config().graph_entity, EntityId(0));
    r.set_graph_entity(EntityId(9));
    assert_eq!(r.config().graph_entity, EntityId(9));
    assert_eq!(r.config().rx_to_tx_turnaround, SimTime::from_micros(100));
}

#[test]
fn pending_packet_until_transmitted() {
    let mut r = radio();
    assert_eq!(r.pending_payload_len(), None);
    r.handle(SimTime::from_micros(0), RadioInput::TxRequest(LoraPacket::from_bytes(vec![1, 2, 3, 4])));
    assert_eq!(r.pending_payload_len(), Some(4));
    r.handle(SimTime::from_micros(100), timer(TIMER_TX_TURNAROUND_COMPLETE));
    assert_eq!(r.pending_payload_len(), None);
}
