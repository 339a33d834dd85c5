use mcsim::common::EntityId;
use mcsim::firmware::FirmwareType;
use mcsim::setup::{allocate_entity_ids, firmware_type_from_name, NodeEntityIds, NodeRoles};

#[test]
fn firmware_type_names_ignore_case() {
    assert_eq!(firmware_type_from_name("repeater"), Some(FirmwareType::Repeater));
    assert_eq!(firmware_type_from_name("Repeater"), Some(FirmwareType::Repeater));
    assert_eq!(firmware_type_from_name("COMPANION"), Some(FirmwareType::Companion));
    assert_eq!(firmware_type_from_name("room_server"), Some(FirmwareType::RoomServer));
    assert_eq!(firmware_type_from_name("RoomServer"), Some(FirmwareType::RoomServer));
    assert_eq!(firmware_type_from_name("sensor"), None);
    assert_eq!(firmware_type_from_name(""), None);
    assert_eq!(firmware_type_from_name(" repeater"), None);
}

#[test]
fn entity_ids_follow_the_graph_node_by_node() {
    let nodes = [
        NodeRoles { firmware: Some(FirmwareType::Companion), has_cli_config: true },
        NodeRoles { firmware: Some(FirmwareType::Repeater), has_cli_config: true },
        NodeRoles { firmware: Some(FirmwareType::Repeater), has_cli_config: false },
        NodeRoles { firmware: Some(FirmwareType::RoomServer), has_cli_config: true },
        NodeRoles { firmware: None, has_cli_config: true },
    ];
    let (ids, next) = allocate_entity_ids(&nodes);
    assert_eq!(
        ids,
        vec![
            NodeEntityIds { radio: EntityId(1), firmware: EntityId(2), agent: Some(EntityId(3)), cli_agent: None },
            NodeEntityIds { radio: EntityId(4), firmware: EntityId(5), agent: None, cli_agent: Some(EntityId(6)) },
            NodeEntityIds { radio: EntityId(7), firmware: EntityId(8), agent: None, cli_agent: None },
            NodeEntityIds { radio: EntityId(9), firmware: EntityId(10), agent: None, cli_agent: Some(EntityId(11)) },
            NodeEntityIds { radio: EntityId(12), firmware: EntityId(13), agent: None, cli_agent: None },
        ]
    );
    assert_eq!(next, 14);
    let (none, next) = allocate_entity_ids(&[]);
    assert!(none.is_empty());
    assert_eq!(next, 1);
}
