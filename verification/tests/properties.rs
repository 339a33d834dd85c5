use mcsim::properties::{
    check_property, default_value, describe_value_type, get_property_def, is_known_property, known_namespaces,
    properties_by_namespace, properties_by_scope, property_def, DefaultValue, PropertyScope, PropertySetError,
    Resolved, ResolvedProperties, UnresolvedProperties, ValueKind, PROPERTY_COUNT,
};

#[derive(Debug, Clone, Copy, PartialEq)]
enum Value {
    Int(i64),
    Float(f64),
    Strings(&'static [&'static str]),
}

fn def(name: &str) -> mcsim::properties::PropertyDef {
    get_property_def(name).unwrap()
}

fn float_default(r: Option<Resolved<Value>>) -> f64 {
    match r {
        Some(Resolved::Default(DefaultValue::Float(text))) => text.parse().unwrap(),
        other => panic!("not a float default: {:?}", other),
    }
}

#[test]
fn test_typed_get() {
    let props: ResolvedProperties<Value> = ResolvedProperties::new(PropertyScope::Node);
    assert_eq!(props.get("radio/frequency_hz"), Some(Resolved::Default(DefaultValue::Integer(910525000))));
    assert_eq!(props.get("radio/bandwidth_hz"), Some(Resolved::Default(DefaultValue::Integer(62500))));
    assert_eq!(props.get("radio/spreading_factor"), Some(Resolved::Default(DefaultValue::Integer(7))));
    assert_eq!(props.get("radio/tx_power_dbm"), Some(Resolved::Default(DefaultValue::Integer(20))));
}

#[test]
fn test_typed_get_float() {
    let props: ResolvedProperties<Value> = ResolvedProperties::new(PropertyScope::Node);
    assert_eq!(float_default(props.get("location/latitude")), 0.0);
}

#[test]
fn test_typed_get_string() {
    let props: ResolvedProperties<Value> = ResolvedProperties::new(PropertyScope::Node);
    assert_eq!(props.get("firmware/type"), Some(Resolved::Default(DefaultValue::Text("Repeater"))));
    assert_eq!(props.get("keys/private_key"), Some(Resolved::Default(DefaultValue::Text("*"))));
}

#[test]
fn test_typed_set_and_get() {
    let mut props: ResolvedProperties<Value> = ResolvedProperties::new(PropertyScope::Node);
    props.set(&def("radio/frequency_hz"), Value::Int(920_000_000), &ValueKind::Integer).unwrap();
    assert_eq!(props.get("radio/frequency_hz"), Some(Resolved::Given(Value::Int(920_000_000))));
}

#[test]
fn test_typed_get_opt_for_nullable() {
    let mut props: ResolvedProperties<Value> = ResolvedProperties::new(PropertyScope::Node);
    assert_eq!(props.get("location/altitude_m"), Some(Resolved::Default(DefaultValue::Null)));
    props.set(&def("location/altitude_m"), Value::Float(1500.5), &ValueKind::Float).unwrap();
    assert_eq!(props.get("location/altitude_m"), Some(Resolved::Given(Value::Float(1500.5))));
}

#[test]
fn test_typed_get_vec() {
    let mut props: ResolvedProperties<Value> = ResolvedProperties::new(PropertyScope::Node);
    assert_eq!(props.get("metrics/groups"), Some(Resolved::Default(DefaultValue::EmptyList)));
    let groups = Value::Strings(&["group1", "group2"]);
    props
        .set(&def("metrics/groups"), groups, &ValueKind::List(vec![ValueKind::Text, ValueKind::Text]))
        .unwrap();
    assert_eq!(props.get("metrics/groups"), Some(Resolved::Given(Value::Strings(&["group1", "group2"]))));
}

#[test]
fn test_edge_properties() {
    let props: ResolvedProperties<Value> = ResolvedProperties::new(PropertyScope::Edge);
    assert_eq!(float_default(props.get("link/mean_snr_db_at20dbm")), 0.0);
    assert_eq!(float_default(props.get("link/snr_std_dev")), 1.8);
    assert_eq!(float_default(props.get("link/rssi_dbm")), -100.0);
}

#[test]
fn test_simulation_properties() {
    let props: ResolvedProperties<Value> = ResolvedProperties::new(PropertyScope::Simulation);
    assert_eq!(float_default(props.get("simulation/duration_s")), 3600.0);
    assert_eq!(props.get("simulation/seed"), Some(Resolved::Default(DefaultValue::Integer(0))));
    assert_eq!(props.get("simulation/uart_base_port"), Some(Resolved::Default(DefaultValue::Integer(9000))));
}

#[test]
fn test_property_name() {
    assert_eq!(property_def(0).name, "radio/frequency_hz");
    assert_eq!(def("location/latitude").name, "location/latitude");
    assert_eq!(def("link/snr_std_dev").name, "link/snr_std_dev");
}

#[test]
fn test_property_lookup() {
    assert!(is_known_property("radio/frequency_hz"));
    assert!(is_known_property("link/mean_snr_db_at20dbm"));
    assert!(!is_known_property("unknown/property"));
}

#[test]
fn aliases_name_the_same_property() {
    assert_eq!(def("location/lat").name, "location/latitude");
    assert_eq!(def("snr_std_dev").name, "link/snr_std_dev");
    assert!(is_known_property("location/alt"));
    assert_eq!(default_value("cli/password"), Some(DefaultValue::Text("admin")));
    assert_eq!(default_value("agent/channel/targets"), Some(DefaultValue::OneText("Public")));
    assert_eq!(default_value("nope"), None);
}

#[test]
fn scopes_and_namespaces() {
    let edge: Vec<&str> = properties_by_scope(PropertyScope::Edge).iter().map(|d| d.name).collect();
    assert_eq!(edge, vec!["link/mean_snr_db_at20dbm", "link/snr_std_dev", "link/rssi_dbm"]);
    let all = properties_by_scope(PropertyScope::Node).len()
        + properties_by_scope(PropertyScope::Edge).len()
        + properties_by_scope(PropertyScope::Simulation).len();
    assert_eq!(all as u64, PROPERTY_COUNT);
    let ns = known_namespaces();
    let mut sorted = ns.clone();
    sorted.sort();
    sorted.dedup();
    assert_eq!(ns, sorted);
    assert!(ns.contains(&"radio".to_string()));
    assert!(ns.contains(&"agent/direct".to_string()));
    assert!(ns.contains(&"predict/itm".to_string()));
    assert!(!ns.contains(&"predict".to_string()));
}

#[test]
fn property_checks_in_order() {
    assert!(matches!(check_property("unknown/property", PropertyScope::Node, &ValueKind::Integer),
        Err(PropertySetError::UnknownProperty(n)) if n == "unknown/property"));
    assert!(matches!(check_property("link/rssi_dbm", PropertyScope::Node, &ValueKind::Float),
        Err(PropertySetError::InvalidPropertyScope(_, PropertyScope::Edge))));
    assert!(matches!(check_property("radio/frequency_hz", PropertyScope::Node, &ValueKind::Text),
        Err(PropertySetError::TypeMismatch { .. })));
    // whole numbers are numbers too; null only where nullable
    assert!(check_property("link/rssi_dbm", PropertyScope::Edge, &ValueKind::Integer).is_ok());
    assert!(check_property("radio/frequency_hz", PropertyScope::Node, &ValueKind::Null).is_err());
    assert!(check_property("location/alt", PropertyScope::Node, &ValueKind::Null).is_ok());
    assert!(check_property("cli/commands", PropertyScope::Node, &ValueKind::List(vec![ValueKind::Text])).is_ok());
    assert!(check_property("cli/commands", PropertyScope::Node, &ValueKind::List(vec![ValueKind::Integer])).is_err());
    assert!(check_property("cli/commands", PropertyScope::Node, &ValueKind::List(vec![])).is_ok());
}

#[test]
fn unresolved_values_are_checked_and_replaced() {
    let mut u: UnresolvedProperties<Value> = UnresolvedProperties::new();
    let freq = def("radio/frequency_hz");
    assert!(u.insert(&freq, Value::Int(1), &ValueKind::Text).is_err());
    assert_eq!(u.get("radio/frequency_hz"), None);
    u.insert(&freq, Value::Int(1), &ValueKind::Integer).unwrap();
    u.insert(&freq, Value::Int(2), &ValueKind::Integer).unwrap();
    assert_eq!(u.get("radio/frequency_hz"), Some(&Value::Int(2)));
    let mut props: ResolvedProperties<Value> = ResolvedProperties::new(PropertyScope::Node);
    props.apply_unresolved(&u);
    assert_eq!(props.get("radio/frequency_hz"), Some(Resolved::Given(Value::Int(2))));
    assert_eq!(props.get("link/rssi_dbm"), None);
    assert_eq!(u.into_list().len(), 1);
}

#[test]
fn type_mismatch_describes_the_value() {
    assert_eq!(describe_value_type(&ValueKind::Integer), "integer");
    assert_eq!(describe_value_type(&ValueKind::Text), "string");
    assert_eq!(describe_value_type(&ValueKind::List(vec![])), "empty array");
    assert_eq!(
        describe_value_type(&ValueKind::List(vec![ValueKind::List(vec![ValueKind::Float]), ValueKind::Bool])),
        "array of array of float"
    );
    match check_property("radio/frequency_hz", PropertyScope::Node, &ValueKind::Text) {
        Err(PropertySetError::TypeMismatch { property, actual, .. }) => {
            assert_eq!(property, "radio/frequency_hz");
            assert_eq!(actual, "string");
        }
        _ => panic!("expected a type mismatch"),
    }
    let mut u: UnresolvedProperties<Value> = UnresolvedProperties::new();
    match u.insert(&def("metrics/groups"), Value::Int(1), &ValueKind::List(vec![ValueKind::Integer])) {
        Err(PropertySetError::TypeMismatch { actual, .. }) => assert_eq!(actual, "array of integer"),
        _ => panic!("expected a type mismatch"),
    }
}

#[test]
fn property_sets_merge_and_look_up() {
    let freq = def("radio/frequency_hz");
    let bw = def("radio/bandwidth_hz");
    let mut a: UnresolvedProperties<Value> = UnresolvedProperties::new();
    a.insert(&freq, Value::Int(1), &ValueKind::Integer).unwrap();
    a.insert(&bw, Value::Int(2), &ValueKind::Integer).unwrap();
    let mut b: UnresolvedProperties<Value> = UnresolvedProperties::new();
    b.insert(&freq, Value::Int(3), &ValueKind::Integer).unwrap();
    assert!(b.contains(&freq) && !b.contains(&bw));
    assert_eq!(b.get_raw(&freq), Some(&Value::Int(3)));
    assert_eq!(b.get_raw(&bw), None);
    a.merge(&b);
    assert_eq!(a.get_raw(&freq), Some(&Value::Int(3)));
    assert_eq!(a.get_raw(&bw), Some(&Value::Int(2)));
    assert_eq!(a.values().len(), 2);

    let mut r: ResolvedProperties<Value> = ResolvedProperties::new(PropertyScope::Node);
    assert_eq!(r.scope(), PropertyScope::Node);
    b.apply_to(&mut r);
    assert_eq!(r.get_raw(&freq), Resolved::Given(Value::Int(3)));
    assert_eq!(r.get_raw(&bw), Resolved::Default(DefaultValue::Integer(62500)));
    // merging a resolved set takes all its values, defaults included
    let mut other: ResolvedProperties<Value> = ResolvedProperties::new(PropertyScope::Node);
    other.set(&bw, Value::Int(9), &ValueKind::Integer).unwrap();
    r.merge(&other);
    assert_eq!(r.get_raw(&freq), Resolved::Default(DefaultValue::Integer(910525000)));
    assert_eq!(r.get_raw(&bw), Resolved::Given(Value::Int(9)));
}

#[test]
fn properties_of_a_namespace() {
    let names: Vec<&str> = properties_by_namespace("link").iter().map(|d| d.name).collect();
    assert_eq!(
        names,
        vec![
            "link/mean_snr_db_at20dbm",
            "link/snr_std_dev",
            "link/rssi_dbm",
            "link/margin_excellent_db",
            "link/margin_good_db",
            "link/margin_marginal_db",
        ]
    );
    assert_eq!(properties_by_namespace("agent/direct").len(), 12);
    assert!(properties_by_namespace("agent").is_empty());
}
