use mcsim::metric_spec::{BreakdownLabel, CounterValue, MetricSpec};
use mcsim::metrics_export::{
    apply_counter_breakdowns, breakdown_sums_fit, collect_available_labels, collect_available_labels_counter,
    collect_counter_breakdown_recursive, collect_counter_breakdowns, counter_value_with_specs,
    escape_csv_field, format_child_path, key_metadata, key_metadata_filtered, key_to_string,
    key_to_string_filtered, name_sums_fit, next_random, percentile_index, prometheus_counter_node,
    prometheus_counter_total, prometheus_name, reservoir_slot,
    snapshot_counters, total_fits, CounterState, CsvCell, KeyMetadata, MetricKey,
    HISTOGRAM_RESERVOIR_SIZE,
};

fn meta(name: &str, labels: &[(&str, &str)]) -> KeyMetadata {
    KeyMetadata {
        name: name.to_string(),
        labels: labels.iter().map(|(k, v)| (k.to_string(), v.to_string())).collect(),
    }
}

fn mkey(name: &str, labels: &[(&str, &str)]) -> MetricKey {
    MetricKey {
        name: name.to_string(),
        labels: labels.iter().map(|(k, v)| (k.to_string(), v.to_string())).collect(),
    }
}

fn breakdown<'a>(v: &'a CounterValue, label: &str) -> Option<&'a Vec<(String, Box<CounterValue>)>> {
    v.labels.iter().find(|(k, _)| k == label).map(|(_, b)| b)
}

fn child<'a>(v: &'a CounterValue, label: &str, value: &str) -> Option<&'a CounterValue> {
    breakdown(v, label).and_then(|b| b.iter().find(|(k, _)| k == value).map(|(_, c)| &**c))
}

#[test]
fn test_counter_increment() {
    let mut counter = CounterState::default();
    counter.increment(5);
    counter.increment(3);
    assert_eq!(counter.get(), 8);
}

#[test]
fn counter_state_wraps_like_an_atomic_add() {
    let mut counter = CounterState::default();
    counter.increment(u64::MAX);
    counter.increment(2);
    assert_eq!(counter.get(), 1);
}

#[test]
fn label_lookups() {
    let m = meta(
        "test.packets",
        &[("node", "Node1"), ("node_type", "repeater"), ("groups", "east,core"), ("node", "Other")],
    );
    assert_eq!(m.label_value("node"), Some("Node1"));
    assert_eq!(m.node(), Some("Node1"));
    assert_eq!(m.node_type(), Some("repeater"));
    assert_eq!(m.route_type(), None);
    assert_eq!(m.payload_type(), None);
    assert_eq!(m.payload_hash(), None);
    assert_eq!(m.groups(), vec!["east".to_string(), "core".to_string()]);
    assert_eq!(m.breakdown_value(BreakdownLabel::Node), Some("Node1"));
    assert_eq!(m.breakdown_value(BreakdownLabel::Group), None);
    assert_eq!(m.breakdown_values(BreakdownLabel::Group), vec!["east".to_string(), "core".to_string()]);
    assert_eq!(m.breakdown_values(BreakdownLabel::NodeType), vec!["repeater".to_string()]);
    assert!(m.breakdown_values(BreakdownLabel::PayloadHash).is_empty());
    assert_eq!(
        m.available_breakdown_labels(),
        vec![BreakdownLabel::Node, BreakdownLabel::NodeType, BreakdownLabel::Group]
    );
}

#[test]
fn empty_groups_label_still_has_one_piece() {
    let m = meta("x", &[("groups", "")]);
    assert_eq!(m.groups(), vec![String::new()]);
    assert_eq!(m.available_breakdown_labels(), vec![BreakdownLabel::Group]);
    let none = meta("x", &[]);
    assert!(none.groups().is_empty());
    assert!(none.available_breakdown_labels().is_empty());
}

#[test]
fn available_labels_are_collected_in_sort_order() {
    let data = vec![
        (meta("m", &[("payload_hash", "AB"), ("node", "n1")]), 1),
        (meta("m", &[("groups", "g"), ("route_type", "flood")]), 2),
        (meta("m", &[("node_type", "client")]), 3),
    ];
    assert_eq!(
        collect_available_labels_counter(&data),
        vec![
            BreakdownLabel::Group,
            BreakdownLabel::NodeType,
            BreakdownLabel::Node,
            BreakdownLabel::RouteType,
            BreakdownLabel::PayloadHash,
        ]
    );
    assert!(collect_available_labels_counter(&[]).is_empty());
}

#[test]
fn set_and_get_or_create_breakdown() {
    let mut v = CounterValue::new(7);
    assert_eq!(v.total, 7);
    assert!(v.labels.is_empty());
    {
        let m = v.get_or_create_breakdown(BreakdownLabel::Node);
        assert!(m.is_empty());
        m.push(("Node1".to_string(), Box::new(CounterValue::new(3))));
    }
    assert_eq!(v.labels.len(), 1);
    assert_eq!(child(&v, "node", "Node1").map(|c| c.total), Some(3));
    // an existing breakdown is handed back, not replaced
    assert_eq!(v.get_or_create_breakdown(BreakdownLabel::Node).len(), 1);
    v.set_breakdown(BreakdownLabel::Node, vec![("Node2".to_string(), Box::new(CounterValue::new(4)))]);
    assert_eq!(v.labels.len(), 1);
    assert!(child(&v, "node", "Node1").is_none());
    assert_eq!(child(&v, "node", "Node2").map(|c| c.total), Some(4));
    v.set_breakdown(BreakdownLabel::PayloadType, Vec::new());
    assert_eq!(v.labels.len(), 2);
    assert_eq!(v.total, 7);
}

#[test]
fn per_node_breakdown_sums_each_node() {
    let data = vec![
        (meta("test.packets", &[("node", "Node1"), ("node_type", "repeater")]), 10),
        (meta("test.packets", &[("node", "Node2"), ("node_type", "client")]), 5),
        (meta("test.packets", &[("node", "Node1"), ("node_type", "repeater")]), 1),
    ];
    let mut v = CounterValue::new(16);
    apply_counter_breakdowns(&mut v, &data, &[BreakdownLabel::Node], 0);
    assert_eq!(v.total, 16);
    assert_eq!(breakdown(&v, "node").unwrap().len(), 2);
    assert_eq!(child(&v, "node", "Node1").unwrap().total, 11);
    assert_eq!(child(&v, "node", "Node2").unwrap().total, 5);
    assert!(child(&v, "node", "Node1").unwrap().labels.is_empty());
}

#[test]
fn nested_breakdowns_and_unknown_values() {
    let data = vec![
        (meta("m", &[("node_type", "repeater"), ("node", "R1")]), 4),
        (meta("m", &[("node_type", "repeater"), ("node", "R2")]), 6),
        (meta("m", &[("node_type", "client")]), 2),
        (meta("m", &[("node", "X")]), 9),
    ];
    let mut v = CounterValue::new(21);
    apply_counter_breakdowns(&mut v, &data, &[BreakdownLabel::NodeType, BreakdownLabel::Node], 0);
    // metrics without a node type are left out of the breakdown
    assert_eq!(breakdown(&v, "node_type").unwrap().len(), 2);
    let rep = child(&v, "node_type", "repeater").unwrap();
    assert_eq!(rep.total, 10);
    assert_eq!(child(rep, "node", "R1").unwrap().total, 4);
    assert_eq!(child(rep, "node", "R2").unwrap().total, 6);
    let cli = child(&v, "node_type", "client").unwrap();
    assert_eq!(cli.total, 2);
    // the only client has no node label: no node breakdown below it
    assert!(cli.labels.is_empty());
}

#[test]
fn breakdown_without_any_value_changes_nothing() {
    let data = vec![(meta("m", &[("node", "A")]), 1)];
    let mut v = CounterValue::new(1);
    apply_counter_breakdowns(&mut v, &data, &[BreakdownLabel::PayloadHash], 0);
    assert!(v.labels.is_empty());
    apply_counter_breakdowns(&mut v, &data, &[BreakdownLabel::Node], 1);
    assert!(v.labels.is_empty());
}

#[test]
fn group_breakdown_counts_a_metric_in_each_group() {
    let data = vec![
        (meta("m", &[("groups", "east,core")]), 3),
        (meta("m", &[("groups", "core")]), 4),
    ];
    let mut v = CounterValue::new(7);
    apply_counter_breakdowns(&mut v, &data, &[BreakdownLabel::Group], 0);
    assert_eq!(child(&v, "groups", "east").unwrap().total, 3);
    assert_eq!(child(&v, "groups", "core").unwrap().total, 7);
}

#[test]
fn merging_keeps_existing_totals() {
    let data = vec![(meta("m", &[("node", "A"), ("route_type", "flood")]), 5)];
    let mut v = CounterValue::new(5);
    apply_counter_breakdowns(&mut v, &data, &[BreakdownLabel::Node], 0);
    apply_counter_breakdowns(&mut v, &data, &[BreakdownLabel::Node, BreakdownLabel::RouteType], 0);
    assert_eq!(breakdown(&v, "node").unwrap().len(), 1);
    let a = child(&v, "node", "A").unwrap();
    assert_eq!(a.total, 5);
    assert_eq!(child(a, "route_type", "flood").unwrap().total, 5);
}

#[test]
fn counter_value_with_specs_merges_every_spec() {
    let data = vec![
        (meta("mcsim.radio.rx_packets", &[("node", "N1"), ("payload_type", "ADVERT")]), 2),
        (meta("mcsim.radio.rx_packets", &[("node", "N2"), ("payload_type", "ACK")]), 3),
    ];
    let specs = vec![
        MetricSpec::parse("mcsim.radio.*/node").unwrap(),
        MetricSpec::parse("mcsim.radio.rx_packets/*").unwrap(),
    ];
    let v = counter_value_with_specs(&data, &specs);
    assert_eq!(v.total, 5);
    assert_eq!(child(&v, "node", "N1").unwrap().total, 2);
    let n2 = child(&v, "node", "N2").unwrap();
    assert_eq!(n2.total, 3);
    // the wildcard spec nests payload type below node
    assert_eq!(child(n2, "payload_type", "ACK").unwrap().total, 3);
    let plain = counter_value_with_specs(&data, &[]);
    assert_eq!(plain.total, 5);
    assert!(plain.labels.is_empty());
}

#[test]
fn csv_field_escaping() {
    assert_eq!(escape_csv_field("plain"), "plain");
    assert_eq!(escape_csv_field("a,b"), "\"a,b\"");
    assert_eq!(escape_csv_field("say \"hi\""), "\"say \"\"hi\"\"\"");
    assert_eq!(escape_csv_field("line\nbreak"), "\"line\nbreak\"");
    assert_eq!(escape_csv_field("cr\r"), "\"cr\r\"");
    assert_eq!(escape_csv_field(""), "");
}

#[test]
fn child_paths() {
    assert_eq!(format_child_path("/", "Node1"), "/Node1");
    assert_eq!(format_child_path("/Node1", "flood"), "/Node1/flood");
    assert_eq!(format_child_path("", "x"), "/x");
}

#[test]
fn csv_cells_follow_the_breakdown_tree() {
    let data = vec![
        (meta("m", &[("node", "A"), ("route_type", "flood")]), 2),
        (meta("m", &[("node", "B"), ("route_type", "direct")]), 3),
    ];
    let mut v = CounterValue::new(5);
    apply_counter_breakdowns(&mut v, &data, &[BreakdownLabel::Node, BreakdownLabel::RouteType], 0);
    let mut rows: Vec<CsvCell> = Vec::new();
    collect_counter_breakdowns("m", &v, "/", &mut rows);
    let mut cells: Vec<(String, String, String)> =
        rows.iter().map(|c| (c.path.clone(), c.metric.clone(), c.value.clone())).collect();
    cells.sort();
    assert_eq!(
        cells,
        vec![
            ("/A".to_string(), "m".to_string(), "2".to_string()),
            ("/A/flood".to_string(), "m".to_string(), "2".to_string()),
            ("/B".to_string(), "m".to_string(), "3".to_string()),
            ("/B/direct".to_string(), "m".to_string(), "3".to_string()),
        ]
    );
    let mut own: Vec<CsvCell> = Vec::new();
    collect_counter_breakdown_recursive("m", &CounterValue::new(42), "/x".to_string(), &mut own);
    assert_eq!(own.len(), 1);
    assert_eq!((own[0].path.as_str(), own[0].value.as_str()), ("/x", "42"));
}

#[test]
fn key_strings() {
    assert_eq!(key_to_string(&mkey("test.counter", &[])), "test.counter");
    assert_eq!(
        key_to_string(&mkey("test.packets", &[("node", "Node1"), ("node_type", "repeater")])),
        "test.packets|node=Node1,node_type=repeater"
    );
}

#[test]
fn key_filtering_by_specs() {
    let key = mkey("mcsim.radio.rx_packets", &[("node", "N1"), ("payload_hash", "AB"), ("groups", "g")]);
    let by_node = vec![MetricSpec::parse("mcsim.radio.*/node").unwrap()];
    assert_eq!(key_to_string_filtered(&key, &by_node), "mcsim.radio.rx_packets|node=N1");
    let m = key_metadata_filtered(&key, &by_node);
    assert_eq!(m.name, "mcsim.radio.rx_packets");
    assert_eq!(m.labels, vec![("node".to_string(), "N1".to_string())]);
    // no matching spec keeps every label
    let other = vec![MetricSpec::parse("mcsim.dm.*/node").unwrap()];
    assert_eq!(key_to_string_filtered(&key, &other), key_to_string(&key));
    // a wildcard breakdown keeps every label
    let all = vec![by_node[0].clone(), MetricSpec::parse("mcsim.radio.rx_packets/*").unwrap()];
    assert_eq!(key_metadata_filtered(&key, &all).labels.len(), 3);
    // a matching spec without breakdowns drops every label
    let bare = vec![MetricSpec::parse("mcsim.radio.rx_packets").unwrap()];
    assert_eq!(key_to_string_filtered(&key, &bare), "mcsim.radio.rx_packets");
    assert_eq!(key_metadata(&key).labels.len(), 3);
}

#[test]
fn test_per_node_breakdown() {
    let node1_key = mkey("test.packets", &[("node", "Node1"), ("node_type", "repeater")]);
    let mut counter1 = CounterState::default();
    counter1.increment(10);
    let node2_key = mkey("test.packets", &[("node", "Node2"), ("node_type", "client")]);
    let mut counter2 = CounterState::default();
    counter2.increment(5);
    let data = vec![(key_metadata(&node1_key), counter1.get()), (key_metadata(&node2_key), counter2.get())];

    let (counters, nodes) = snapshot_counters(&data);

    // Check aggregated total
    assert_eq!(lookup(&counters, "test.packets"), Some(15));

    // Check per-node breakdown
    let node1 = nodes.iter().find(|(n, _)| n == "Node1").map(|(_, c)| c).unwrap();
    let node2 = nodes.iter().find(|(n, _)| n == "Node2").map(|(_, c)| c).unwrap();
    assert_eq!(lookup(node1, "test.packets"), Some(10));
    assert_eq!(lookup(node2, "test.packets"), Some(5));
}

fn lookup(list: &[(String, u64)], key: &str) -> Option<u64> {
    list.iter().find(|(k, _)| k == key).map(|(_, v)| *v)
}

#[test]
fn snapshot_counters_sum_by_name_and_node() {
    let data = vec![
        (meta("a", &[("node", "N1")]), 1),
        (meta("b", &[("node", "N1")]), 2),
        (meta("a", &[("node", "N2")]), 3),
        (meta("a", &[]), 4),
        (meta("a", &[("node", "N1")]), 5),
    ];
    let (counters, nodes) = snapshot_counters(&data);
    assert_eq!(counters.len(), 2);
    assert_eq!(lookup(&counters, "a"), Some(13));
    assert_eq!(lookup(&counters, "b"), Some(2));
    assert_eq!(nodes.len(), 2);
    let n1 = &nodes.iter().find(|(n, _)| n == "N1").unwrap().1;
    assert_eq!(lookup(n1, "a"), Some(6));
    assert_eq!(lookup(n1, "b"), Some(2));
    let n2 = &nodes.iter().find(|(n, _)| n == "N2").unwrap().1;
    assert_eq!(n2.len(), 1);
    assert_eq!(lookup(n2, "a"), Some(3));
    let (empty_counters, empty_nodes) = snapshot_counters(&[]);
    assert!(empty_counters.is_empty() && empty_nodes.is_empty());
}

#[test]
fn xorshift_sequence() {
    let a = next_random(0x1234_5678_9ABC_DEF0);
    assert_eq!(a, 0xfe80_0d65_69fa_1b4d);
    assert_eq!(next_random(a), 0x0ce7_c497_a6b0_9c3b);
    assert_eq!(next_random(0), 0);
}

#[test]
fn reservoir_slots() {
    assert_eq!(reservoir_slot(1, 999), Some(0));
    assert_eq!(reservoir_slot(HISTOGRAM_RESERVOIR_SIZE as u64, 7), Some(HISTOGRAM_RESERVOIR_SIZE - 1));
    let n = HISTOGRAM_RESERVOIR_SIZE as u64 + 1;
    assert_eq!(reservoir_slot(n, 3), Some(3));
    assert_eq!(reservoir_slot(n, n - 1), None);
    assert_eq!(reservoir_slot(n, n + 5), Some(5));
}

#[test]
fn merging_the_same_breakdowns_twice_changes_nothing() {
    let data = vec![
        (meta("m", &[("node", "A"), ("route_type", "flood")]), 5),
        (meta("m", &[("node", "B"), ("route_type", "direct")]), 7),
    ];
    let bds = [BreakdownLabel::Node, BreakdownLabel::RouteType];
    let mut once = CounterValue::new(12);
    apply_counter_breakdowns(&mut once, &data, &bds, 0);
    let mut twice = CounterValue::new(12);
    apply_counter_breakdowns(&mut twice, &data, &bds, 0);
    apply_counter_breakdowns(&mut twice, &data, &bds, 0);
    let mut rows_once: Vec<CsvCell> = Vec::new();
    collect_counter_breakdowns("m", &once, "/", &mut rows_once);
    let mut rows_twice: Vec<CsvCell> = Vec::new();
    collect_counter_breakdowns("m", &twice, "/", &mut rows_twice);
    let cells = |rows: &[CsvCell]| {
        let mut v: Vec<(String, String)> = rows.iter().map(|c| (c.path.clone(), c.value.clone())).collect();
        v.sort();
        v
    };
    assert_eq!(cells(&rows_once), cells(&rows_twice));
    assert_eq!(rows_once.len(), 4);
}

#[test]
fn overflow_checks() {
    let big = vec![
        (meta("a", &[("node", "N1")]), u64::MAX),
        (meta("a", &[("node", "N1")]), 1),
    ];
    assert!(!total_fits(&big));
    assert!(!name_sums_fit(&big));
    assert!(!breakdown_sums_fit(&big, &[BreakdownLabel::Node], 0));
    // the sums never meet when the values sit under different names and nodes
    let apart = vec![
        (meta("a", &[("node", "N1")]), u64::MAX),
        (meta("b", &[("node", "N2")]), 1),
    ];
    assert!(!total_fits(&apart));
    assert!(name_sums_fit(&apart));
    assert!(breakdown_sums_fit(&apart, &[BreakdownLabel::Node], 0));
    // without values for the label nothing is summed
    assert!(breakdown_sums_fit(&big, &[BreakdownLabel::PayloadHash], 0));
    assert!(breakdown_sums_fit(&big, &[], 0));
    let small = vec![(meta("a", &[]), 1), (meta("a", &[]), 2)];
    assert!(total_fits(&small) && name_sums_fit(&small));
}

#[test]
fn percentile_indices() {
    // samples 1..=100: the 50th, 90th and 99th percentiles sit at these indices
    assert_eq!(percentile_index(100, 50), 50);
    assert_eq!(percentile_index(100, 90), 89);
    assert_eq!(percentile_index(100, 99), 98);
    assert_eq!(percentile_index(1, 99), 0);
    assert_eq!(percentile_index(5, 90), 4);
    assert_eq!(percentile_index(6, 50), 3);
    assert_eq!(percentile_index(10, 1000), 9);
    // the same indices as rounding the floating-point fraction of the range
    for len in 1..=3000usize {
        let mut prev = 0;
        for p in [0u64, 1, 25, 50, 75, 90, 95, 99, 100] {
            let expected = ((p as f64 / 100.0) * (len - 1) as f64).round() as usize;
            let i = percentile_index(len, p);
            assert_eq!(i, expected.min(len - 1), "len {} p {}", len, p);
            assert!(i >= prev);
            prev = i;
        }
    }
}

#[test]
fn prometheus_counter_lines() {
    assert_eq!(prometheus_name("mcsim.radio.tx_packets"), "mcsim_radio_tx_packets");
    assert_eq!(prometheus_name("plain"), "plain");
    let total = prometheus_counter_total("test.counter", 10);
    assert!(total.contains("# TYPE test_counter counter"));
    assert!(total.contains("test_counter 10"));
    assert_eq!(prometheus_name(""), "");
    assert_eq!(
        prometheus_counter_total("mcsim.radio.tx_packets", 42),
        "# TYPE mcsim_radio_tx_packets counter\nmcsim_radio_tx_packets 42\n"
    );
    assert_eq!(
        prometheus_counter_node("mcsim.radio.tx_packets", "node.1", 7),
        "mcsim_radio_tx_packets{node=\"node.1\"} 7\n"
    );
}

#[test]
fn available_labels_whatever_the_values() {
    let data: Vec<(KeyMetadata, Vec<f64>)> = vec![
        (meta("m", &[("payload_type", "advert"), ("node", "a")]), vec![1.0]),
        (meta("m", &[("route_type", "flood")]), vec![]),
    ];
    assert_eq!(
        collect_available_labels(&data),
        vec![BreakdownLabel::Node, BreakdownLabel::RouteType, BreakdownLabel::PayloadType]
    );
    let none: Vec<(KeyMetadata, f64)> = vec![(meta("m", &[]), 2.5)];
    assert!(collect_available_labels(&none).is_empty());
}
