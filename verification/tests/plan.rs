use mcsim::common::{EntityId, NodeId};
use mcsim::firmware::FirmwareType;
use mcsim::plan::{plan_simulation, ContactKind, NodeSetup, SetupError};
use mcsim::sim_time::SimTime;

fn node(name: &str, fw: &str, key: u8, startup_us: u64) -> NodeSetup {
    NodeSetup {
        name: name.to_string(),
        firmware_type: fw.to_string(),
        node_id: NodeId([key; 32]),
        startup_time: SimTime::from_micros(startup_us),
        has_cli_config: false,
        contacts: None,
        auto_contacts_max: 100,
        direct_targets: None,
        channel_targets: vec![],
        companion_channels: None,
    }
}

fn strings(v: &[&str]) -> Vec<String> {
    v.iter().map(|s| s.to_string()).collect()
}

fn model() -> Vec<NodeSetup> {
    let mut alice = node("alice", "Companion", 1, 0);
    alice.channel_targets = strings(&["Ops"]);
    alice.companion_channels = Some(strings(&["Ops", "News"]));
    let mut bob = node("bob", "repeater", 2, 1_000_000);
    bob.has_cli_config = true;
    let mut carol = node("carol", "COMPANION", 3, 500);
    carol.contacts = Some(strings(&["bob", "carol", "zed", "alice"]));
    carol.direct_targets = Some(strings(&["dave", "nobody", "alice"]));
    carol.companion_channels = Some(strings(&["Public", "Local"]));
    let dave = node("dave", "room_server", 4, 0);
    vec![alice, bob, carol, dave]
}

#[test]
fn plan_allocates_ids_and_start_timers() {
    let edges = vec![("alice".to_string(), "bob".to_string()), ("bob".to_string(), "dave".to_string())];
    let p = plan_simulation(&model(), &edges).ok().unwrap();
    assert_eq!(p.firmware, vec![FirmwareType::Companion, FirmwareType::Repeater, FirmwareType::Companion, FirmwareType::RoomServer]);
    assert_eq!(p.next_entity_id, 12);
    assert_eq!(p.ids[0].agent, Some(EntityId(3)));
    assert_eq!(p.ids[1].cli_agent, Some(EntityId(6)));
    assert_eq!(p.ids[3].radio, EntityId(10));
    let timers: Vec<(u64, u64, u64)> = p.start_timers.iter().map(|t| (t.id.0, t.time.as_micros(), t.entity.0)).collect();
    assert_eq!(
        timers,
        vec![
            (0, 10_000, 2),
            (1, 1_010_000, 5),
            (2, 10_500, 8),
            (3, 10_000, 11),
            (4, 1_000_000, 3),
            (5, 1_000_500, 9),
            (6, 3_000_000, 6),
        ]
    );
    assert_eq!(p.links, vec![(EntityId(1), EntityId(4)), (EntityId(4), EntityId(10))]);
}

#[test]
fn plan_agents_contacts_targets_channels() {
    let p = plan_simulation(&model(), &[]).ok().unwrap();
    assert!(p.agents[1].is_none() && p.agents[3].is_none());
    let alice = p.agents[0].as_ref().unwrap();
    let names: Vec<(&str, ContactKind)> = alice.contacts.iter().map(|c| (c.name.as_str(), c.kind)).collect();
    assert_eq!(names, vec![("carol", ContactKind::Chat), ("bob", ContactKind::Repeater), ("dave", ContactKind::RoomServer)]);
    assert_eq!(alice.contacts[0].node_id, NodeId([3; 32]));
    assert_eq!(alice.direct_targets, vec![NodeId([3; 32])]);
    assert_eq!(alice.channel_targets, strings(&["Ops"]));
    assert_eq!(alice.subscribe_only, strings(&["News"]));
    let carol = p.agents[2].as_ref().unwrap();
    let names: Vec<&str> = carol.contacts.iter().map(|c| c.name.as_str()).collect();
    assert_eq!(names, vec!["bob", "alice"]);
    assert_eq!(carol.direct_targets, vec![NodeId([4; 32]), NodeId([1; 32])]);
    assert_eq!(carol.channel_targets, strings(&["Public"]));
    assert_eq!(carol.subscribe_only, strings(&["Public", "Local"]));
}

#[test]
fn plan_auto_contacts_up_to_the_maximum() {
    let mut nodes = model();
    nodes[0].auto_contacts_max = 2;
    let p = plan_simulation(&nodes, &[]).ok().unwrap();
    let names: Vec<&str> = p.agents[0].as_ref().unwrap().contacts.iter().map(|c| c.name.as_str()).collect();
    assert_eq!(names, vec!["carol", "bob"]);
}

#[test]
fn plan_errors() {
    let mut nodes = model();
    nodes[1].firmware_type = "Sensor".to_string();
    nodes[3].firmware_type = "x".to_string();
    match plan_simulation(&nodes, &[]) {
        Err(SetupError::UnknownFirmware { node, firmware_type }) => {
            assert_eq!(node, "bob");
            assert_eq!(firmware_type, "Sensor");
        }
        _ => panic!("expected an unknown firmware"),
    }
    let edges = vec![("alice".to_string(), "zed".to_string()), ("yy".to_string(), "bob".to_string())];
    match plan_simulation(&model(), &edges) {
        Err(SetupError::NodeNotFound(n)) => assert_eq!(n, "zed"),
        _ => panic!("expected a missing node"),
    }
}

#[test]
fn setup_error_messages() {
    let e = SetupError::UnknownFirmware { node: "bob".to_string(), firmware_type: "Sensor".to_string() };
    assert_eq!(e.message(), "Invalid configuration: Unknown firmware_type 'Sensor' for node 'bob'");
    assert_eq!(SetupError::NodeNotFound("zed".to_string()).message(), "Node not found: zed");
}
