use mcsim::metric_spec::{glob_match, matching_specs, BreakdownLabel, MetricSpec, MetricSpecError};

#[test]
fn test_parse_simple_metric() {
    let spec = MetricSpec::parse("mcsim.radio.rx_packets").unwrap();
    assert_eq!(spec.pattern, "mcsim.radio.rx_packets");
    assert!(spec.breakdowns.is_empty());
}

#[test]
fn test_parse_metric_with_breakdown() {
    let spec = MetricSpec::parse("mcsim.radio.rx_packets/node").unwrap();
    assert_eq!(spec.pattern, "mcsim.radio.rx_packets");
    assert_eq!(spec.breakdowns, vec![BreakdownLabel::Node]);
}

#[test]
fn test_parse_metric_with_multiple_breakdowns() {
    let spec = MetricSpec::parse("mcsim.radio.*/payload_type/node").unwrap();
    assert_eq!(spec.pattern, "mcsim.radio.*");
    assert_eq!(spec.breakdowns, vec![BreakdownLabel::PayloadType, BreakdownLabel::Node]);
}

#[test]
fn test_parse_breakdown_aliases() {
    let spec = MetricSpec::parse("mcsim.radio.*/node_type").unwrap();
    assert_eq!(spec.breakdowns, vec![BreakdownLabel::NodeType]);

    let spec = MetricSpec::parse("mcsim.radio.*/type").unwrap();
    assert_eq!(spec.breakdowns, vec![BreakdownLabel::NodeType]);

    let spec = MetricSpec::parse("mcsim.radio.*/groups").unwrap();
    assert_eq!(spec.breakdowns, vec![BreakdownLabel::Group]);
}

#[test]
fn test_parse_duplicate_breakdown_error() {
    let result = MetricSpec::parse("mcsim.radio.*/node/node");
    assert!(matches!(result, Err(MetricSpecError::DuplicateBreakdown(_))));
}

#[test]
fn test_parse_unknown_breakdown_error() {
    let result = MetricSpec::parse("mcsim.radio.*/foobar");
    assert!(matches!(result, Err(MetricSpecError::UnknownBreakdown { .. })));
}

#[test]
fn test_glob_match_exact() {
    assert!(glob_match("mcsim.radio.rx_packets", "mcsim.radio.rx_packets"));
    assert!(!glob_match("mcsim.radio.rx_packets", "mcsim.radio.tx_packets"));
}

#[test]
fn test_glob_match_wildcard() {
    assert!(glob_match("*", "anything"));
    assert!(glob_match("mcsim.*", "mcsim.radio.rx_packets"));
    assert!(glob_match("mcsim.radio.*", "mcsim.radio.rx_packets"));
    assert!(glob_match("mcsim.radio.*", "mcsim.radio.tx_packets"));
    assert!(!glob_match("mcsim.radio.*", "mcsim.dm.sent"));
}

#[test]
fn test_glob_match_middle_wildcard() {
    assert!(glob_match("mcsim.*.rx_packets", "mcsim.radio.rx_packets"));
    assert!(glob_match("mcsim.*.rx_packets", "mcsim.packet.rx_packets"));
    assert!(!glob_match("mcsim.*.rx_packets", "mcsim.radio.tx_packets"));
}

#[test]
fn test_spec_matches() {
    let spec = MetricSpec::parse("mcsim.radio.*").unwrap();
    assert!(spec.matches("mcsim.radio.rx_packets"));
    assert!(spec.matches("mcsim.radio.tx_packets"));
    assert!(!spec.matches("mcsim.dm.sent"));
}

#[test]
fn test_parse_wildcard_breakdown() {
    let spec = MetricSpec::parse("mcsim.radio.rx_packets/*").unwrap();
    assert_eq!(spec.pattern, "mcsim.radio.rx_packets");
    assert!(spec.breakdowns.is_empty());
    assert!(spec.breakdown_all);
}

#[test]
fn test_parse_wildcard_breakdown_with_pattern() {
    let spec = MetricSpec::parse("mcsim.radio.*/*").unwrap();
    assert_eq!(spec.pattern, "mcsim.radio.*");
    assert!(spec.breakdowns.is_empty());
    assert!(spec.breakdown_all);
}

#[test]
fn test_parse_wildcard_breakdown_not_alone() {
    let result = MetricSpec::parse("mcsim.radio.*/*/node");
    assert!(matches!(result, Err(MetricSpecError::WildcardBreakdownNotAlone)));

    let result = MetricSpec::parse("mcsim.radio.*/node/*");
    assert!(matches!(result, Err(MetricSpecError::WildcardBreakdownNotAlone)));
}

#[test]
fn test_simple_metric_no_wildcard_breakdown() {
    let spec = MetricSpec::parse("mcsim.radio.rx_packets").unwrap();
    assert!(!spec.breakdown_all);
}

#[test]
fn test_metric_with_breakdown_no_wildcard() {
    let spec = MetricSpec::parse("mcsim.radio.rx_packets/node").unwrap();
    assert!(!spec.breakdown_all);
    assert_eq!(spec.breakdowns, vec![BreakdownLabel::Node]);
}

#[test]
fn test_breakdown_label_sort_order() {
    let mut labels = vec![
        BreakdownLabel::PayloadHash,
        BreakdownLabel::Node,
        BreakdownLabel::NodeType,
        BreakdownLabel::Group,
        BreakdownLabel::RouteType,
        BreakdownLabel::PayloadType,
    ];
    labels.sort_by_key(|l| l.sort_order());
    assert_eq!(
        labels,
        vec![
            BreakdownLabel::Group,
            BreakdownLabel::NodeType,
            BreakdownLabel::Node,
            BreakdownLabel::RouteType,
            BreakdownLabel::PayloadType,
            BreakdownLabel::PayloadHash,
        ]
    );
}

// ---------------------------------------------------------------------------
// Further cases
// ---------------------------------------------------------------------------

#[test]
fn parse_trims_and_ignores_case() {
    let spec = MetricSpec::parse("  mcsim.radio.*  / NODE /\tPayload_Hash ").unwrap();
    assert_eq!(spec.pattern, "mcsim.radio.*");
    assert_eq!(spec.breakdowns, vec![BreakdownLabel::Node, BreakdownLabel::PayloadHash]);
}

#[test]
fn parse_skips_empty_breakdowns() {
    let spec = MetricSpec::parse("m//node//").unwrap();
    assert_eq!(spec.breakdowns, vec![BreakdownLabel::Node]);
    assert!(!spec.breakdown_all);
}

#[test]
fn parse_errors_carry_label_and_position() {
    match MetricSpec::parse("m/node/ Foo ") {
        Err(MetricSpecError::UnknownBreakdown { label, position }) => {
            assert_eq!(label, "Foo");
            assert_eq!(position, 2);
        }
        _ => panic!("expected unknown breakdown"),
    }
    match MetricSpec::parse("m/hash/payloadhash") {
        Err(MetricSpecError::DuplicateBreakdown(l)) => assert_eq!(l, "payloadhash"),
        _ => panic!("expected duplicate"),
    }
    assert!(matches!(MetricSpec::parse("   /node"), Err(MetricSpecError::EmptyPattern)));
    assert!(matches!(MetricSpec::parse(""), Err(MetricSpecError::EmptyPattern)));
}

#[test]
fn breakdown_label_names() {
    assert_eq!(BreakdownLabel::from_str("ROUTE"), Some(BreakdownLabel::RouteType));
    assert_eq!(BreakdownLabel::from_str("payloadtype"), Some(BreakdownLabel::PayloadType));
    assert_eq!(BreakdownLabel::from_str("nodes"), None);
    for l in [
        BreakdownLabel::Node,
        BreakdownLabel::NodeType,
        BreakdownLabel::Group,
        BreakdownLabel::RouteType,
        BreakdownLabel::PayloadType,
        BreakdownLabel::PayloadHash,
    ] {
        assert_eq!(BreakdownLabel::from_str(l.label_key()), Some(l));
    }
    assert_eq!(BreakdownLabel::Group.label_key(), "groups");
}

#[test]
fn glob_edge_cases() {
    assert!(glob_match("**", ""));
    assert!(glob_match("a*b*", "ab"));
    assert!(!glob_match("a*a*a", "aa"));
    assert!(glob_match("*ab*ab", "abab"));
    assert!(!glob_match("abc", "abcd"));
    assert!(glob_match("", ""));
    assert!(!glob_match("", "x"));
}

#[test]
fn documented_packet_type_breakdown() {
    // the documented example `mcsim.radio.*/packet_type/node`
    let spec = MetricSpec::parse("mcsim.radio.*/packet_type/node").unwrap();
    assert_eq!(spec.breakdowns, vec![BreakdownLabel::PayloadType, BreakdownLabel::Node]);
    assert!(!spec.breakdown_all);
    assert_eq!(BreakdownLabel::from_str("packet_type"), Some(BreakdownLabel::PayloadType));
    assert_eq!(BreakdownLabel::from_str("Packet_Type"), Some(BreakdownLabel::PayloadType));
}

#[test]
fn glob_pieces_match_in_order() {
    // pieces "a", "b", "c" in order, with any text in place of each `*`
    assert!(glob_match("a*b*c", "abc"));
    assert!(glob_match("a*b*c", "axxbyyc"));
    assert!(glob_match("a*b*c", "abbbc"));
    assert!(!glob_match("a*b*c", "acb"));
    assert!(!glob_match("a*b*c", "abcx"));
    // an empty piece between two `*`s
    assert!(glob_match("**", ""));
    assert!(glob_match("x**y", "xzy"));
}

#[test]
fn matching_specs_in_order() {
    let specs = vec![
        MetricSpec::parse("mcsim.radio.*").unwrap(),
        MetricSpec::parse("mcsim.dm.*").unwrap(),
        MetricSpec::parse("*/node").unwrap(),
        MetricSpec::parse("mcsim.radio.rx_packets").unwrap(),
    ];
    assert_eq!(matching_specs(&specs, "mcsim.radio.rx_packets"), vec![0, 2, 3]);
    assert_eq!(matching_specs(&specs, "mcsim.dm.sent"), vec![1, 2]);
    assert_eq!(matching_specs(&specs[..2], "other"), Vec::<usize>::new());
}

#[test]
fn labels_lower_case_as_unicode_does() {
    // U+212A KELVIN SIGN lower-cases to `k`
    assert_eq!(BreakdownLabel::from_str("pac\u{212A}et_type"), Some(BreakdownLabel::PayloadType));
    assert_eq!(BreakdownLabel::from_str("PACKET_TYPE"), Some(BreakdownLabel::PayloadType));
    assert_eq!("pac\u{212A}et_type".to_lowercase(), "packet_type");
    let spec = MetricSpec::parse("mcsim.radio.*/PAC\u{212A}ET_TYPE/Node").unwrap();
    assert_eq!(spec.breakdowns, vec![BreakdownLabel::PayloadType, BreakdownLabel::Node]);
    // other characters outside ASCII name no label
    assert_eq!(BreakdownLabel::from_str("n\u{00F6}de"), None);
    assert_eq!(BreakdownLabel::from_str("\u{0130}"), None);
}
