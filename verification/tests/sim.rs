use mcsim::common::{EntityId, LoraPacket, NodeId, RadioParams};
use mcsim::firmware::{bytes_before_nul, write_node_name, MAX_NODE_NAME, FirmwareSimulationParams, FirmwareType, YieldReason, DEFAULT_IDLE_LOOPS_BEFORE_YIELD, DEFAULT_INITIAL_RTC_SECS, DEFAULT_SPIN_DETECTION_THRESHOLD};
use mcsim::lora::{calculate_time_on_air, calculate_time_on_air_with_config, check_collision, snr_threshold_index, default_radio_params, CollisionContext, CollisionResult, RadioConfig, RadioParamsExt};
use mcsim::sim_time::SimTime;
use mcsim::stats::{format_duration, format_duration_secs, update_stats, NodeStats, SimulationStats, StatsEvent};
use mcsim::text::{sanitize_for_entity_path, truncate_string};
use std::collections::HashMap;

#[test]
fn test_sim_time_arithmetic() {
    let t1 = SimTime::from_millis(100);
    let t2 = SimTime::from_millis(50);
    assert_eq!((t1 + t2).as_millis(), 150);
    assert_eq!((t1 - t2).as_millis(), 50);
}

#[test]
fn test_firmware_simulation_params_default() {
    let params = FirmwareSimulationParams::default();
    assert_eq!(params.spin_detection_threshold, DEFAULT_SPIN_DETECTION_THRESHOLD);
    assert_eq!(params.idle_loops_before_yield, DEFAULT_IDLE_LOOPS_BEFORE_YIELD);
    assert_eq!(params.log_spin_detection, false);
    assert_eq!(params.log_loop_iterations, false);
    assert_eq!(params.initial_rtc_secs, DEFAULT_INITIAL_RTC_SECS);
}

#[test]
fn test_firmware_type_dll_names() {
    assert_eq!(FirmwareType::Repeater.dll_name(), "meshcore_repeater.dll");
    assert_eq!(
        FirmwareType::RoomServer.dll_name(),
        "meshcore_room_server.dll"
    );
    assert_eq!(FirmwareType::Companion.dll_name(), "meshcore_companion.dll");
}

#[test]
fn test_yield_reason_values() {
    assert_eq!(YieldReason::Idle as i32, 0);
    assert_eq!(YieldReason::RadioTxStart as i32, 1);
    assert_eq!(YieldReason::RadioTxComplete as i32, 2);
    assert_eq!(YieldReason::Reboot as i32, 3);
    assert_eq!(YieldReason::PowerOff as i32, 4);
    assert_eq!(YieldReason::Error as i32, 5);
}

#[test]
fn test_time_on_air() {
    let params = RadioParams::default_meshcore();
    let toa = calculate_time_on_air(&params, 50);
    assert!(toa.as_millis() > 100);
    assert!(toa.as_millis() < 5000);
}

#[test]
fn test_collision_no_overlap() {
    let incoming = CollisionContext {
        start_time: SimTime::from_millis(1000),
        end_time: SimTime::from_millis(1500),
        frequency_hz: 906_000_000,
        packet_id: 1,
    };
    let existing = vec![CollisionContext {
        start_time: SimTime::from_millis(0),
        end_time: SimTime::from_millis(500),
        frequency_hz: 906_000_000,
        packet_id: 0,
    }];

    assert_eq!(check_collision(&incoming, &existing), CollisionResult::NoCollision);
}

#[test]
fn test_collision_overlap() {
    let incoming = CollisionContext {
        start_time: SimTime::from_millis(400),
        end_time: SimTime::from_millis(900),
        frequency_hz: 906_000_000,
        packet_id: 1,
    };
    let existing = vec![CollisionContext {
        start_time: SimTime::from_millis(0),
        end_time: SimTime::from_millis(500),
        frequency_hz: 906_000_000,
        packet_id: 0,
    }];

    assert_eq!(check_collision(&incoming, &existing), CollisionResult::BothDestroyed(0));
}

// ---------------------------------------------------------------------------
// Further cases
// ---------------------------------------------------------------------------

#[test]
fn sim_time_checked_ops() {
    let a = SimTime::from_micros(10);
    let b = SimTime::from_micros(3);
    assert_eq!(a.add(b), Some(SimTime::from_micros(13)));
    assert_eq!(b.sub(a), None);
    assert_eq!(a.sub(b), Some(SimTime::from_micros(7)));
    assert_eq!(SimTime::from_micros(u64::MAX).add(b), None);
    // saturating subtraction operator
    assert_eq!((b - a).as_micros(), 0);
    assert_eq!(SimTime::from_micros(1999).as_millis(), 1);
}

#[test]
fn time_on_air_exact_values() {
    let params = default_radio_params();
    // SF7, 62.5 kHz, CR5, 50 bytes: 95.25 symbols of 2.048 ms
    assert_eq!(calculate_time_on_air(&params, 50).as_micros(), 195_072);
    assert_eq!(params.time_on_air(50).as_micros(), 195_072);
    // empty payload: 12.25 preamble symbols + 8 header symbols, no payload block
    assert_eq!(calculate_time_on_air(&params, 0).as_micros(), 41_472);
    let sf12 = RadioParams { spreading_factor: 12, bandwidth_hz: 125_000, ..params };
    // SF12, 125 kHz, CR5, 10 bytes: 30.25 symbols of 32.768 ms
    assert_eq!(calculate_time_on_air(&sf12, 10).as_micros(), 991_232);
}

#[test]
fn time_on_air_degenerate_parameters() {
    let params = default_radio_params();
    // spreading factor 0: unboundedly many payload blocks
    let sf0 = RadioParams { spreading_factor: 0, ..params };
    assert_eq!(calculate_time_on_air(&sf0, 10).as_micros(), u64::MAX);
    // spreading factor 0 with coding rate 0: the time is 0
    let sf0_cr0 = RadioParams { spreading_factor: 0, coding_rate: 0, ..params };
    assert_eq!(calculate_time_on_air(&sf0_cr0, 10).as_micros(), 0);
    // bandwidth 0: unbounded symbol time
    let bw0 = RadioParams { bandwidth_hz: 0, ..params };
    assert_eq!(calculate_time_on_air(&bw0, 10).as_micros(), u64::MAX);
    assert_eq!(bw0.time_on_air(0).as_micros(), u64::MAX);
}

#[test]
fn time_on_air_large_spreading_factors() {
    let params = default_radio_params();
    // SF40, 125 kHz, 10 bytes: no payload block, 20.25 symbols of 2^40 / 125000 s
    let sf40 = RadioParams { spreading_factor: 40, bandwidth_hz: 125_000, ..params };
    assert_eq!(calculate_time_on_air(&sf40, 10).as_micros(), 178_120_883_699_712);
    // beyond the simulation clock
    let sf100 = RadioParams { spreading_factor: 100, ..params };
    assert_eq!(calculate_time_on_air(&sf100, 10).as_micros(), u64::MAX);
    let sf255 = RadioParams { spreading_factor: 255, bandwidth_hz: u32::MAX, ..params };
    assert_eq!(calculate_time_on_air(&sf255, 0).as_micros(), u64::MAX);
    // a 1-symbol preamble at SF7, 62.5 kHz, empty payload: 13.25 symbols of 2.048 ms
    assert_eq!(calculate_time_on_air_with_config(&params, 0, 1).as_micros(), 27_136);
}

#[test]
fn time_on_air_grows_with_payload() {
    let params = default_radio_params();
    let mut prev = 0;
    for len in 0..300usize {
        let t = calculate_time_on_air(&params, len).as_micros();
        assert!(t >= prev);
        prev = t;
    }
}

#[test]
fn collision_requires_same_frequency_and_picks_first() {
    let incoming = CollisionContext {
        start_time: SimTime::from_millis(0),
        end_time: SimTime::from_millis(100),
        frequency_hz: 1,
        packet_id: 9,
    };
    let existing = vec![
        CollisionContext { start_time: SimTime::from_millis(50), end_time: SimTime::from_millis(60), frequency_hz: 2, packet_id: 1 },
        CollisionContext { start_time: SimTime::from_millis(100), end_time: SimTime::from_millis(200), frequency_hz: 1, packet_id: 2 },
        CollisionContext { start_time: SimTime::from_millis(90), end_time: SimTime::from_millis(95), frequency_hz: 1, packet_id: 3 },
        CollisionContext { start_time: SimTime::from_millis(10), end_time: SimTime::from_millis(20), frequency_hz: 1, packet_id: 4 },
    ];
    assert_eq!(check_collision(&incoming, &existing), CollisionResult::BothDestroyed(3));
    assert_eq!(check_collision(&incoming, &[]), CollisionResult::NoCollision);
}

#[test]
fn ids_and_defaults() {
    assert_eq!(EntityId::new(7), EntityId(7));
    let mut bytes = [0u8; 32];
    bytes[0] = 0xAB;
    bytes[5] = 0x01;
    bytes[6] = 0xFF;
    let id = NodeId::from_bytes(bytes);
    assert_eq!(id.public_key_hash(), [0xAB, 0, 0, 0, 0, 0x01]);
    assert_eq!(id.display(), "ab0000000001");
    let cfg = RadioConfig::default();
    assert_eq!(cfg.rx_to_tx_turnaround.as_micros(), 100);
    assert_eq!(cfg.params.spreading_factor, 7);
    assert_eq!(NodeStats::default().tx, 0);
    assert_eq!(SimulationStats::default().total_events, 0);
}

#[test]
fn lora_packet_without_decode() {
    let p = LoraPacket::from_bytes(vec![1, 2, 3]);
    assert!(p.decoded().is_none());
    assert_eq!(p.payload_type_label(), "unknown");
    assert_eq!(p.route_type_label(), "unknown");
    assert!(!p.is_flood());
    assert!(!p.is_direct());
    assert_eq!(p.payload, vec![1, 2, 3]);
}

#[test]
fn duration_text_pads_fields() {
    assert_eq!(format_duration_secs(0), " 0h00m00s");
    assert_eq!(format_duration_secs(3_725), " 1h02m05s");
    assert_eq!(format_duration_secs(36_000 + 59 * 60 + 59), "10h59m59s");
    assert_eq!(format_duration_secs(360_000), "100h00m00s");
    assert_eq!(format_duration(std::time::Duration::from_millis(61_500)), " 0h01m01s");
}

#[test]
fn truncation_counts_bytes() {
    assert_eq!(truncate_string("short", 10), "short");
    assert_eq!(truncate_string("exactly10!", 10), "exactly10!");
    assert_eq!(truncate_string("a longer name", 8), "a lon...");
    assert_eq!(truncate_string("ééé", 5), "é...");
}

#[test]
fn entity_path_sanitizing() {
    assert_eq!(sanitize_for_entity_path("a/b\\c*d?e\"f<g>h|i:j"), "a_b_c_d_e_f_g_h_i_j");
    assert_eq!(sanitize_for_entity_path("tab\there\u{7f}\u{85}"), "tab_here__");
    assert_eq!(sanitize_for_entity_path("Node-1 é"), "Node-1 é");
}

#[test]
fn stats_follow_events() {
    let mut stats = SimulationStats::default();
    let mut nodes: HashMap<u64, NodeStats> = HashMap::new();
    nodes.insert(1, NodeStats::default());
    nodes.insert(2, NodeStats::default());
    let mut fw: HashMap<u64, u64> = HashMap::new();
    fw.insert(10, 1);
    fw.insert(20, 2);
    update_stats(&mut stats, &mut nodes, &fw, &StatsEvent::Transmitted { radio_id: 1 });
    update_stats(&mut stats, &mut nodes, &fw, &StatsEvent::Transmitted { radio_id: 99 });
    assert_eq!(stats.packets_transmitted, 2);
    assert_eq!(nodes[&1].tx, 1);
    update_stats(&mut stats, &mut nodes, &fw, &StatsEvent::Received { targets: vec![10, 20, 30], collided: false });
    update_stats(&mut stats, &mut nodes, &fw, &StatsEvent::Received { targets: vec![20], collided: true });
    assert_eq!(stats.packets_received, 1);
    assert_eq!(stats.packets_collided, 1);
    assert_eq!((nodes[&1].rx, nodes[&1].collisions), (1, 0));
    assert_eq!((nodes[&2].rx, nodes[&2].collisions), (1, 1));
    update_stats(&mut stats, &mut nodes, &fw, &StatsEvent::MessageSent);
    update_stats(&mut stats, &mut nodes, &fw, &StatsEvent::MessageAcked);
    update_stats(&mut stats, &mut nodes, &fw, &StatsEvent::Other);
    assert_eq!((stats.messages_sent, stats.messages_acked), (1, 1));
    assert_eq!(nodes.len(), 2);
}

#[test]
fn time_on_air_with_preamble() {
    let params = default_radio_params();
    assert_eq!(calculate_time_on_air_with_config(&params, 50, 8), calculate_time_on_air(&params, 50));
    // eight more preamble symbols of 2.048 ms each
    assert_eq!(calculate_time_on_air_with_config(&params, 50, 16).as_micros(), 195_072 + 16_384);
}

#[test]
fn node_name_written_with_terminator() {
    let mut field = [0u8; MAX_NODE_NAME];
    write_node_name(&mut field, "my_node");
    assert_eq!(&field[..7], b"my_node");
    assert_eq!(field[7], 0);
}

#[test]
fn node_name_cut_to_fit() {
    let mut field = [7u8; MAX_NODE_NAME];
    write_node_name(&mut field, "this_is_a_very_long_node_name_that_exceeds_the_maximum");
    assert_eq!(&field[..MAX_NODE_NAME - 1], &b"this_is_a_very_long_node_name_that"[..MAX_NODE_NAME - 1]);
    assert_eq!(field[MAX_NODE_NAME - 1], 0);
    // a shorter name leaves the bytes after its terminator as they were
    write_node_name(&mut field, "ab");
    assert_eq!(&field[..4], b"ab\0s");
}

#[test]
fn c_string_stops_at_nul() {
    assert_eq!(bytes_before_nul(b"Test error\0junk"), b"Test error".to_vec());
    assert_eq!(bytes_before_nul(b"no terminator"), b"no terminator".to_vec());
    assert_eq!(bytes_before_nul(b"\0abc"), Vec::<u8>::new());
    assert_eq!(bytes_before_nul(b""), Vec::<u8>::new());
}

#[test]
fn snr_threshold_positions() {
    for sf in 7u8..=12 {
        assert_eq!(snr_threshold_index(sf), (sf - 7) as usize);
    }
    assert_eq!(snr_threshold_index(6), 1);
    assert_eq!(snr_threshold_index(13), 1);
    assert_eq!(snr_threshold_index(0), 1);
}
