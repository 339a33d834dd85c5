//! The property registry: every property a model can set, with the scope it
//! applies to (nodes, edges or the simulation), the type of its values and
//! its built-in default; lookups by name or alias, the namespaces, and the
//! sets of properties given in a model, whose values are checked against the
//! property's type when they are inserted.
//!
//! A property's name is its namespace and its short name joined by `/`
//! (`radio/frequency_hz`, `agent/direct/enabled`); its namespace is what
//! comes before the last `/`. Property values themselves are not held here:
//! a set of properties carries them as `W`, and checks them by their kind.
//! Properties are resolved in order: built-in defaults, then defaults from
//! the model files, then values given on nodes and edges.
use vstd::prelude::*;
use crate::assoc::{
    assoc_map, distinct_keys, find_key, lemma_assoc_index, lemma_assoc_push, lemma_assoc_update,
    lemma_distinct_push,
};
use crate::text::{chars_eq_str, push_str, str_chars, string_from_chars};

verus! {

/// How many properties are registered.
pub const PROPERTY_COUNT: u64 = 94;

/// What a property applies to.
#[derive(Debug, Clone, Copy, PartialEq, Eq, Structural)]
pub enum PropertyScope {
    /// Each node.
    Node,
    /// Each edge (link).
    Edge,
    /// The simulation as a whole.
    Simulation,
}

/// The base type of a property's values.
#[derive(Debug, Clone, Copy, PartialEq, Eq, Structural)]
pub enum BaseType {
    /// Whole numbers.
    Integer,
    /// Numbers; whole numbers are accepted too.
    Float,
    /// Text.
    String,
    /// `true` or `false`.
    Bool,
}

/// The type of a property's values: a base type, or a list of it, and
/// whether `null` is accepted.
#[derive(Debug, Clone, Copy, PartialEq, Eq, Structural)]
pub struct PropertyType {
    /// The base type.
    pub base: BaseType,
    /// Whether values are lists of the base type.
    pub array: bool,
    /// Whether `null` is accepted.
    pub nullable: bool,
}

/// A property's built-in default. Numbers with a fraction are given as
/// their decimal text.
#[derive(Debug, Clone, Copy, PartialEq)]
pub enum DefaultValue {
    /// A whole number.
    Integer(i64),
    /// A number with a fraction, as decimal text.
    Float(&'static str),
    /// Text.
    Text(&'static str),
    /// A truth value.
    Bool(bool),
    /// No value.
    Null,
    /// The empty list.
    EmptyList,
    /// A list of one text.
    OneText(&'static str),
}

/// A registered property.
#[derive(Debug, Clone, Copy)]
pub struct PropertyDef {
    /// Full name, `namespace/name`.
    pub name: &'static str,
    /// Another name the property can be given by.
    pub alias: Option<&'static str>,
    /// What the property applies to.
    pub scope: PropertyScope,
    /// The type of its values.
    pub value_type: PropertyType,
    /// The built-in default.
    pub default: DefaultValue,
    /// The unit of its values, if any.
    pub unit: Option<&'static str>,
    /// What the property controls, for its users.
    pub description: &'static str,
}

/// The registered properties, in order: the `i`-th of them (the last one for
/// any larger `i`).
pub open spec fn property_def_at(i: u64) -> PropertyDef {
    match i {
        0 => PropertyDef {
            name: "radio/frequency_hz",
            alias: None,
            scope: PropertyScope::Node,
            value_type: PropertyType { base: BaseType::Integer, array: false, nullable: false },
            default: DefaultValue::Integer(910_525_000),
            unit: Some("Hz"),
            description: "Radio frequency in Hz",
        },
        1 => PropertyDef {
            name: "radio/bandwidth_hz",
            alias: None,
            scope: PropertyScope::Node,
            value_type: PropertyType { base: BaseType::Integer, array: false, nullable: false },
            default: DefaultValue::Integer(62_500),
            unit: Some("Hz"),
            description: "Radio bandwidth in Hz",
        },
        2 => PropertyDef {
            name: "radio/spreading_factor",
            alias: None,
            scope: PropertyScope::Node,
            value_type: PropertyType { base: BaseType::Integer, array: false, nullable: false },
            default: DefaultValue::Integer(7),
            unit: None,
            description: "LoRa spreading factor (7-12)",
        },
        3 => PropertyDef {
            name: "radio/coding_rate",
            alias: None,
            scope: PropertyScope::Node,
            value_type: PropertyType { base: BaseType::Integer, array: false, nullable: false },
            default: DefaultValue::Integer(5),
            unit: None,
            description: "LoRa coding rate denominator (5-8, representing 4/5 to 4/8)",
        },
        4 => PropertyDef {
            name: "radio/tx_power_dbm",
            alias: None,
            scope: PropertyScope::Node,
            value_type: PropertyType { base: BaseType::Integer, array: false, nullable: false },
            default: DefaultValue::Integer(20),
            unit: Some("dBm"),
            description: "Transmit power in dBm",
        },
        5 => PropertyDef {
            name: "companion/channels",
            alias: None,
            scope: PropertyScope::Node,
            value_type: PropertyType { base: BaseType::String, array: true, nullable: false },
            default: DefaultValue::Null,
            unit: None,
            description: "Channels to subscribe to at startup (list of channel names). If null, no channels are added at startup",
        },
        6 => PropertyDef {
            name: "companion/contacts",
            alias: None,
            scope: PropertyScope::Node,
            value_type: PropertyType { base: BaseType::String, array: true, nullable: false },
            default: DefaultValue::Null,
            unit: None,
            description: "Contacts to add at startup (list of node names, resolved to public keys). If null, nodes must exchange advertisements",
        },
        7 => PropertyDef {
            name: "companion/auto_contacts_max",
            alias: None,
            scope: PropertyScope::Node,
            value_type: PropertyType { base: BaseType::Integer, array: false, nullable: false },
            default: DefaultValue::Integer(100),
            unit: Some("count"),
            description: "Maximum number of auto-populated contacts when companion/contacts is null (companions first, then other nodes)",
        },
        8 => PropertyDef {
            name: "messaging/flood_ack_timeout_s",
            alias: None,
            scope: PropertyScope::Node,
            value_type: PropertyType { base: BaseType::Float, array: false, nullable: false },
            default: DefaultValue::Float("30.0"),
            unit: Some("s"),
            description: "Timeout waiting for ACK when message sent via flood routing",
        },
        9 => PropertyDef {
            name: "messaging/direct_ack_timeout_per_hop_s",
            alias: None,
            scope: PropertyScope::Node,
            value_type: PropertyType { base: BaseType::Float, array: false, nullable: false },
            default: DefaultValue::Float("5.0"),
            unit: Some("s"),
            description: "Timeout per hop when message sent via direct routing (total timeout = path_length × this value)",
        },
        10 => PropertyDef {
            name: "messaging/direct_attempts",
            alias: None,
            scope: PropertyScope::Node,
            value_type: PropertyType { base: BaseType::Integer, array: false, nullable: false },
            default: DefaultValue::Integer(3),
            unit: None,
            description: "Number of attempts using direct routing before clearing path and switching to flood (only applies when path is known)",
        },
        11 => PropertyDef {
            name: "messaging/flood_attempts_after_direct",
            alias: None,
            scope: PropertyScope::Node,
            value_type: PropertyType { base: BaseType::Integer, array: false, nullable: false },
            default: DefaultValue::Integer(1),
            unit: None,
            description: "Number of flood attempts after direct attempts exhausted (only applies when starting with a known path)",
        },
        12 => PropertyDef {
            name: "messaging/flood_attempts_no_path",
            alias: None,
            scope: PropertyScope::Node,
            value_type: PropertyType { base: BaseType::Integer, array: false, nullable: false },
            default: DefaultValue::Integer(3),
            unit: None,
            description: "Number of flood attempts when no path is known to the recipient",
        },
        13 => PropertyDef {
            name: "room_server/room_id",
            alias: None,
            scope: PropertyScope::Node,
            value_type: PropertyType { base: BaseType::String, array: false, nullable: true },
            default: DefaultValue::Null,
            unit: None,
            description: "Room ID for room server (16-byte hex string)",
        },
        14 => PropertyDef {
            name: "agent/direct/enabled",
            alias: None,
            scope: PropertyScope::Node,
            value_type: PropertyType { base: BaseType::Bool, array: false, nullable: false },
            default: DefaultValue::Bool(false),
            unit: None,
            description: "Enable sending direct messages",
        },
        15 => PropertyDef {
            name: "agent/direct/startup_s",
            alias: None,
            scope: PropertyScope::Node,
            value_type: PropertyType { base: BaseType::Float, array: false, nullable: false },
            default: DefaultValue::Float("0.0"),
            unit: Some("s"),
            description: "Wait time before starting direct messages",
        },
        16 => PropertyDef {
            name: "agent/direct/startup_jitter_s",
            alias: None,
            scope: PropertyScope::Node,
            value_type: PropertyType { base: BaseType::Float, array: false, nullable: false },
            default: DefaultValue::Float("0.0"),
            unit: Some("s"),
            description: "Standard deviation in the randomness of the startup interval",
        },
        17 => PropertyDef {
            name: "agent/direct/targets",
            alias: None,
            scope: PropertyScope::Node,
            value_type: PropertyType { base: BaseType::String, array: true, nullable: true },
            default: DefaultValue::Null,
            unit: Some("node_name"),
            description: "Names of nodes to target direct messages to. Multiple targets rotate per message. If null, all other companions are targeted randomly",
        },
        18 => PropertyDef {
            name: "agent/direct/interval_s",
            alias: None,
            scope: PropertyScope::Node,
            value_type: PropertyType { base: BaseType::Float, array: false, nullable: false },
            default: DefaultValue::Float("5.0"),
            unit: Some("s"),
            description: "Interval after receiving an ack (or timeout) before sending the next message",
        },
        19 => PropertyDef {
            name: "agent/direct/interval_jitter_s",
            alias: None,
            scope: PropertyScope::Node,
            value_type: PropertyType { base: BaseType::Float, array: false, nullable: false },
            default: DefaultValue::Float("0.0"),
            unit: Some("s"),
            description: "Standard deviation of the randomness in the message interval timer",
        },
        20 => PropertyDef {
            name: "agent/direct/ack_timeout_s",
            alias: None,
            scope: PropertyScope::Node,
            value_type: PropertyType { base: BaseType::Float, array: false, nullable: false },
            default: DefaultValue::Float("10.0"),
            unit: Some("s"),
            description: "Timeout waiting for an ACK before proceeding",
        },
        21 => PropertyDef {
            name: "agent/direct/session_message_count",
            alias: None,
            scope: PropertyScope::Node,
            value_type: PropertyType { base: BaseType::Integer, array: false, nullable: true },
            default: DefaultValue::Null,
            unit: None,
            description: "Pause after this many messages before waiting for session_interval_s. If null, messaging continues without session breaks",
        },
        22 => PropertyDef {
            name: "agent/direct/session_interval_s",
            alias: None,
            scope: PropertyScope::Node,
            value_type: PropertyType { base: BaseType::Float, array: false, nullable: false },
            default: DefaultValue::Float("3600.0"),
            unit: Some("s"),
            description: "Time to wait for the next session",
        },
        23 => PropertyDef {
            name: "agent/direct/session_interval_jitter_s",
            alias: None,
            scope: PropertyScope::Node,
            value_type: PropertyType { base: BaseType::Float, array: false, nullable: false },
            default: DefaultValue::Float("0.0"),
            unit: Some("s"),
            description: "Standard deviation of randomness in the session interval timer",
        },
        24 => PropertyDef {
            name: "agent/direct/message_count",
            alias: None,
            scope: PropertyScope::Node,
            value_type: PropertyType { base: BaseType::Integer, array: false, nullable: true },
            default: DefaultValue::Null,
            unit: None,
            description: "Total count of messages before the agent stops sending. If null, sends indefinitely",
        },
        25 => PropertyDef {
            name: "agent/direct/shutdown_s",
            alias: None,
            scope: PropertyScope::Node,
            value_type: PropertyType { base: BaseType::Float, array: false, nullable: true },
            default: DefaultValue::Null,
            unit: Some("s"),
            description: "Time before the agent stops sending. If null, sends indefinitely",
        },
        26 => PropertyDef {
            name: "agent/channel/enabled",
            alias: None,
            scope: PropertyScope::Node,
            value_type: PropertyType { base: BaseType::Bool, array: false, nullable: false },
            default: DefaultValue::Bool(false),
            unit: None,
            description: "Enable sending channel messages",
        },
        27 => PropertyDef {
            name: "agent/channel/startup_s",
            alias: None,
            scope: PropertyScope::Node,
            value_type: PropertyType { base: BaseType::Float, array: false, nullable: false },
            default: DefaultValue::Float("0.0"),
            unit: Some("s"),
            description: "Wait time before starting channel messages",
        },
        28 => PropertyDef {
            name: "agent/channel/startup_jitter_s",
            alias: None,
            scope: PropertyScope::Node,
            value_type: PropertyType { base: BaseType::Float, array: false, nullable: false },
            default: DefaultValue::Float("0.0"),
            unit: Some("s"),
            description: "Standard deviation in the randomness of the startup interval",
        },
        29 => PropertyDef {
            name: "agent/channel/targets",
            alias: None,
            scope: PropertyScope::Node,
            value_type: PropertyType { base: BaseType::String, array: true, nullable: false },
            default: DefaultValue::OneText("Public"),
            unit: None,
            description: "Names of channels to target channel messages to. Multiple channels rotate per message",
        },
        30 => PropertyDef {
            name: "agent/channel/interval_s",
            alias: None,
            scope: PropertyScope::Node,
            value_type: PropertyType { base: BaseType::Float, array: false, nullable: false },
            default: DefaultValue::Float("5.0"),
            unit: Some("s"),
            description: "Interval after sending before sending the next message",
        },
        31 => PropertyDef {
            name: "agent/channel/interval_jitter_s",
            alias: None,
            scope: PropertyScope::Node,
            value_type: PropertyType { base: BaseType::Float, array: false, nullable: false },
            default: DefaultValue::Float("0.0"),
            unit: Some("s"),
            description: "Standard deviation of the randomness in the message interval timer",
        },
        32 => PropertyDef {
            name: "agent/channel/session_message_count",
            alias: None,
            scope: PropertyScope::Node,
            value_type: PropertyType { base: BaseType::Integer, array: false, nullable: true },
            default: DefaultValue::Null,
            unit: None,
            description: "Pause after this many messages before waiting for session_interval_s. If null, messaging continues without session breaks",
        },
        33 => PropertyDef {
            name: "agent/channel/session_interval_s",
            alias: None,
            scope: PropertyScope::Node,
            value_type: PropertyType { base: BaseType::Float, array: false, nullable: false },
            default: DefaultValue::Float("3600.0"),
            unit: Some("s"),
            description: "Time to wait for the next session",
        },
        34 => PropertyDef {
            name: "agent/channel/session_interval_jitter_s",
            alias: None,
            scope: PropertyScope::Node,
            value_type: PropertyType { base: BaseType::Float, array: false, nullable: false },
            default: DefaultValue::Float("0.0"),
            unit: Some("s"),
            description: "Standard deviation of randomness in the session interval timer",
        },
        35 => PropertyDef {
            name: "agent/channel/message_count",
            alias: None,
            scope: PropertyScope::Node,
            value_type: PropertyType { base: BaseType::Integer, array: false, nullable: true },
            default: DefaultValue::Null,
            unit: None,
            description: "Total count of messages before the agent stops sending. If null, sends indefinitely",
        },
        36 => PropertyDef {
            name: "agent/channel/shutdown_s",
            alias: None,
            scope: PropertyScope::Node,
            value_type: PropertyType { base: BaseType::Float, array: false, nullable: true },
            default: DefaultValue::Null,
            unit: Some("s"),
            description: "Time before the agent stops sending. If null, sends indefinitely",
        },
        37 => PropertyDef {
            name: "link/mean_snr_db_at20dbm",
            alias: Some("mean_snr_db_at20dbm"),
            scope: PropertyScope::Edge,
            value_type: PropertyType { base: BaseType::Float, array: false, nullable: false },
            default: DefaultValue::Float("0.0"),
            unit: Some("dB"),
            description: "Mean signal-to-noise ratio at the receiver when transmitter is at 20 dBm",
        },
        38 => PropertyDef {
            name: "link/snr_std_dev",
            alias: Some("snr_std_dev"),
            scope: PropertyScope::Edge,
            value_type: PropertyType { base: BaseType::Float, array: false, nullable: false },
            default: DefaultValue::Float("1.8"),
            unit: Some("dB"),
            description: "Standard deviation of SNR for Gaussian fading model",
        },
        39 => PropertyDef {
            name: "link/rssi_dbm",
            alias: Some("rssi_dbm"),
            scope: PropertyScope::Edge,
            value_type: PropertyType { base: BaseType::Float, array: false, nullable: false },
            default: DefaultValue::Float("-100.0"),
            unit: Some("dBm"),
            description: "Received signal strength indicator",
        },
        40 => PropertyDef {
            name: "simulation/duration_s",
            alias: None,
            scope: PropertyScope::Simulation,
            value_type: PropertyType { base: BaseType::Float, array: false, nullable: false },
            default: DefaultValue::Float("3600.0"),
            unit: Some("s"),
            description: "Total simulation duration",
        },
        41 => PropertyDef {
            name: "simulation/seed",
            alias: None,
            scope: PropertyScope::Simulation,
            value_type: PropertyType { base: BaseType::Integer, array: false, nullable: false },
            default: DefaultValue::Integer(0),
            unit: None,
            description: "Random seed for reproducible simulations",
        },
        42 => PropertyDef {
            name: "simulation/uart_base_port",
            alias: None,
            scope: PropertyScope::Simulation,
            value_type: PropertyType { base: BaseType::Integer, array: false, nullable: false },
            default: DefaultValue::Integer(9000),
            unit: Some("port"),
            description: "Base TCP port for UART connections",
        },
        43 => PropertyDef {
            name: "keys/private_key",
            alias: None,
            scope: PropertyScope::Node,
            value_type: PropertyType { base: BaseType::String, array: false, nullable: false },
            default: DefaultValue::Text("*"),
            unit: None,
            description: "Private key specification. Modes: '*' = random keypair, 'prefix*' = generate until public key starts with prefix, or 64 hex chars for exact key",
        },
        44 => PropertyDef {
            name: "keys/public_key",
            alias: None,
            scope: PropertyScope::Node,
            value_type: PropertyType { base: BaseType::String, array: false, nullable: false },
            default: DefaultValue::Text("*"),
            unit: None,
            description: "Public key specification. Modes: '*' = random keypair, 'prefix*' = generate until public key starts with prefix, or 64 hex chars for exact key",
        },
        45 => PropertyDef {
            name: "location/latitude",
            alias: Some("location/lat"),
            scope: PropertyScope::Node,
            value_type: PropertyType { base: BaseType::Float, array: false, nullable: false },
            default: DefaultValue::Float("0.0"),
            unit: Some("degrees"),
            description: "Latitude of the node in decimal degrees",
        },
        46 => PropertyDef {
            name: "location/longitude",
            alias: Some("location/lon"),
            scope: PropertyScope::Node,
            value_type: PropertyType { base: BaseType::Float, array: false, nullable: false },
            default: DefaultValue::Float("0.0"),
            unit: Some("degrees"),
            description: "Longitude of the node in decimal degrees",
        },
        47 => PropertyDef {
            name: "location/altitude_m",
            alias: Some("location/alt"),
            scope: PropertyScope::Node,
            value_type: PropertyType { base: BaseType::Float, array: false, nullable: true },
            default: DefaultValue::Null,
            unit: Some("m"),
            description: "Altitude of the node in meters",
        },
        48 => PropertyDef {
            name: "firmware/type",
            alias: None,
            scope: PropertyScope::Node,
            value_type: PropertyType { base: BaseType::String, array: false, nullable: false },
            default: DefaultValue::Text("Repeater"),
            unit: None,
            description: "Firmware type of the node (\"repeater\", \"companion\", \"roomserver\")",
        },
        49 => PropertyDef {
            name: "firmware/uart_port",
            alias: None,
            scope: PropertyScope::Node,
            value_type: PropertyType { base: BaseType::Integer, array: false, nullable: true },
            default: DefaultValue::Null,
            unit: Some("port"),
            description: "TCP port to expose the UART interface on",
        },
        50 => PropertyDef {
            name: "firmware/startup_time_s",
            alias: None,
            scope: PropertyScope::Node,
            value_type: PropertyType { base: BaseType::Float, array: false, nullable: false },
            default: DefaultValue::Float("0.0"),
            unit: Some("s"),
            description: "Startup delay time for the firmware in seconds. The firmware will not process any events until this time has passed. Use with startup_time_jitter_s for randomization",
        },
        51 => PropertyDef {
            name: "firmware/startup_time_jitter_s",
            alias: None,
            scope: PropertyScope::Node,
            value_type: PropertyType { base: BaseType::Float, array: false, nullable: false },
            default: DefaultValue::Float("0.0"),
            unit: Some("s"),
            description: "Jitter for the firmware startup time in seconds. Applied as uniform random value in range [-jitter, +jitter]",
        },
        52 => PropertyDef {
            name: "metrics/groups",
            alias: None,
            scope: PropertyScope::Node,
            value_type: PropertyType { base: BaseType::String, array: true, nullable: false },
            default: DefaultValue::EmptyList,
            unit: None,
            description: "Groups this node belongs to for metrics aggregation",
        },
        53 => PropertyDef {
            name: "metrics/warmup_s",
            alias: None,
            scope: PropertyScope::Simulation,
            value_type: PropertyType { base: BaseType::Float, array: false, nullable: false },
            default: DefaultValue::Float("0.0"),
            unit: Some("s"),
            description: "Warmup period in seconds before metrics collection starts. Metrics recorded during this period are discarded to allow the simulation to reach steady state",
        },
        54 => PropertyDef {
            name: "cli/password",
            alias: None,
            scope: PropertyScope::Node,
            value_type: PropertyType { base: BaseType::String, array: false, nullable: true },
            default: DefaultValue::Text("admin"),
            unit: None,
            description: "Admin password for CLI access. If set, the CLI agent sends this password at startup to authenticate",
        },
        55 => PropertyDef {
            name: "cli/commands",
            alias: None,
            scope: PropertyScope::Node,
            value_type: PropertyType { base: BaseType::String, array: true, nullable: false },
            default: DefaultValue::EmptyList,
            unit: None,
            description: "CLI commands to execute at startup. List of raw command strings (e.g., ['set rxdelay 0', 'set name MyNode'])",
        },
        56 => PropertyDef {
            name: "radio/capture_effect_threshold_db",
            alias: None,
            scope: PropertyScope::Simulation,
            value_type: PropertyType { base: BaseType::Float, array: false, nullable: false },
            default: DefaultValue::Float("6.0"),
            unit: Some("dB"),
            description: "Minimum SNR difference required for capture effect (stronger signal captures the receiver)",
        },
        57 => PropertyDef {
            name: "radio/noise_floor_dbm",
            alias: None,
            scope: PropertyScope::Simulation,
            value_type: PropertyType { base: BaseType::Float, array: false, nullable: false },
            default: DefaultValue::Float("-120.0"),
            unit: Some("dBm"),
            description: "LoRa noise floor at 250kHz bandwidth",
        },
        58 => PropertyDef {
            name: "radio/rx_to_tx_turnaround_us",
            alias: None,
            scope: PropertyScope::Simulation,
            value_type: PropertyType { base: BaseType::Integer, array: false, nullable: false },
            default: DefaultValue::Integer(100),
            unit: Some("µs"),
            description: "RX to TX turnaround time (radio mode switch delay)",
        },
        59 => PropertyDef {
            name: "radio/tx_to_rx_turnaround_us",
            alias: None,
            scope: PropertyScope::Simulation,
            value_type: PropertyType { base: BaseType::Integer, array: false, nullable: false },
            default: DefaultValue::Integer(100),
            unit: Some("µs"),
            description: "TX to RX turnaround time (radio mode switch delay)",
        },
        60 => PropertyDef {
            name: "radio/snr_threshold_sf7_db",
            alias: None,
            scope: PropertyScope::Simulation,
            value_type: PropertyType { base: BaseType::Float, array: false, nullable: false },
            default: DefaultValue::Float("-7.5"),
            unit: Some("dB"),
            description: "SNR demodulation threshold for SF7",
        },
        61 => PropertyDef {
            name: "radio/snr_threshold_sf8_db",
            alias: None,
            scope: PropertyScope::Simulation,
            value_type: PropertyType { base: BaseType::Float, array: false, nullable: false },
            default: DefaultValue::Float("-10.0"),
            unit: Some("dB"),
            description: "SNR demodulation threshold for SF8",
        },
        62 => PropertyDef {
            name: "radio/snr_threshold_sf9_db",
            alias: None,
            scope: PropertyScope::Simulation,
            value_type: PropertyType { base: BaseType::Float, array: false, nullable: false },
            default: DefaultValue::Float("-12.5"),
            unit: Some("dB"),
            description: "SNR demodulation threshold for SF9",
        },
        63 => PropertyDef {
            name: "radio/snr_threshold_sf10_db",
            alias: None,
            scope: PropertyScope::Simulation,
            value_type: PropertyType { base: BaseType::Float, array: false, nullable: false },
            default: DefaultValue::Float("-15.0"),
            unit: Some("dB"),
            description: "SNR demodulation threshold for SF10",
        },
        64 => PropertyDef {
            name: "radio/snr_threshold_sf11_db",
            alias: None,
            scope: PropertyScope::Simulation,
            value_type: PropertyType { base: BaseType::Float, array: false, nullable: false },
            default: DefaultValue::Float("-17.5"),
            unit: Some("dB"),
            description: "SNR demodulation threshold for SF11",
        },
        65 => PropertyDef {
            name: "radio/snr_threshold_sf12_db",
            alias: None,
            scope: PropertyScope::Simulation,
            value_type: PropertyType { base: BaseType::Float, array: false, nullable: false },
            default: DefaultValue::Float("-20.0"),
            unit: Some("dB"),
            description: "SNR demodulation threshold for SF12",
        },
        66 => PropertyDef {
            name: "link/margin_excellent_db",
            alias: None,
            scope: PropertyScope::Simulation,
            value_type: PropertyType { base: BaseType::Float, array: false, nullable: false },
            default: DefaultValue::Float("10.0"),
            unit: Some("dB"),
            description: "Minimum margin for excellent link quality",
        },
        67 => PropertyDef {
            name: "link/margin_good_db",
            alias: None,
            scope: PropertyScope::Simulation,
            value_type: PropertyType { base: BaseType::Float, array: false, nullable: false },
            default: DefaultValue::Float("5.0"),
            unit: Some("dB"),
            description: "Minimum margin for good link quality",
        },
        68 => PropertyDef {
            name: "link/margin_marginal_db",
            alias: None,
            scope: PropertyScope::Simulation,
            value_type: PropertyType { base: BaseType::Float, array: false, nullable: false },
            default: DefaultValue::Float("0.0"),
            unit: Some("dB"),
            description: "Minimum margin for marginal link quality",
        },
        69 => PropertyDef {
            name: "predict/radio/frequency_mhz",
            alias: None,
            scope: PropertyScope::Simulation,
            value_type: PropertyType { base: BaseType::Float, array: false, nullable: false },
            default: DefaultValue::Float("910.525"),
            unit: Some("MHz"),
            description: "Radio frequency in MHz for link prediction",
        },
        70 => PropertyDef {
            name: "predict/radio/tx_power_dbm",
            alias: None,
            scope: PropertyScope::Simulation,
            value_type: PropertyType { base: BaseType::Integer, array: false, nullable: false },
            default: DefaultValue::Integer(20),
            unit: Some("dBm"),
            description: "TX power in dBm for link prediction",
        },
        71 => PropertyDef {
            name: "predict/radio/spreading_factor",
            alias: None,
            scope: PropertyScope::Simulation,
            value_type: PropertyType { base: BaseType::Integer, array: false, nullable: false },
            default: DefaultValue::Integer(7),
            unit: None,
            description: "LoRa spreading factor (7-12) for link prediction",
        },
        72 => PropertyDef {
            name: "predict/terrain/dem_dir",
            alias: None,
            scope: PropertyScope::Simulation,
            value_type: PropertyType { base: BaseType::String, array: false, nullable: false },
            default: DefaultValue::Text("./dem_data"),
            unit: None,
            description: "Path to DEM data directory for terrain lookups (used for USGS tiles)",
        },
        73 => PropertyDef {
            name: "predict/terrain/elevation_cache_dir",
            alias: None,
            scope: PropertyScope::Simulation,
            value_type: PropertyType { base: BaseType::String, array: false, nullable: false },
            default: DefaultValue::Text("./elevation_cache"),
            unit: None,
            description: "Path to elevation tile cache directory for AWS terrain tiles",
        },
        74 => PropertyDef {
            name: "predict/terrain/source",
            alias: None,
            scope: PropertyScope::Simulation,
            value_type: PropertyType { base: BaseType::String, array: false, nullable: false },
            default: DefaultValue::Text("aws"),
            unit: None,
            description: "Elevation data source: 'aws' (fetch 512x512 GeoTIFF tiles from AWS Open Data) or 'local_dem' (use local USGS DEM files from dem_dir)",
        },
        75 => PropertyDef {
            name: "predict/terrain/elevation_zoom_level",
            alias: None,
            scope: PropertyScope::Simulation,
            value_type: PropertyType { base: BaseType::Integer, array: false, nullable: false },
            default: DefaultValue::Integer(12),
            unit: None,
            description: "Zoom level for AWS elevation tiles (1-14, higher = more detail). Zoom 12 provides ~38m resolution at equator",
        },
        76 => PropertyDef {
            name: "predict/terrain/samples",
            alias: None,
            scope: PropertyScope::Simulation,
            value_type: PropertyType { base: BaseType::Integer, array: false, nullable: false },
            default: DefaultValue::Integer(100),
            unit: None,
            description: "Number of terrain samples along the path for link prediction",
        },
        77 => PropertyDef {
            name: "predict/itm/min_distance_m",
            alias: None,
            scope: PropertyScope::Simulation,
            value_type: PropertyType { base: BaseType::Float, array: false, nullable: false },
            default: DefaultValue::Float("1000.0"),
            unit: Some("m"),
            description: "Minimum path distance for ITM model",
        },
        78 => PropertyDef {
            name: "predict/itm/terrain_samples",
            alias: None,
            scope: PropertyScope::Simulation,
            value_type: PropertyType { base: BaseType::Integer, array: false, nullable: false },
            default: DefaultValue::Integer(100),
            unit: None,
            description: "Number of elevation points in terrain profile",
        },
        79 => PropertyDef {
            name: "predict/itm/climate",
            alias: None,
            scope: PropertyScope::Simulation,
            value_type: PropertyType { base: BaseType::String, array: false, nullable: false },
            default: DefaultValue::Text("continental_temperate"),
            unit: None,
            description: "Radio climate setting (continental_temperate, etc.)",
        },
        80 => PropertyDef {
            name: "predict/itm/polarization",
            alias: None,
            scope: PropertyScope::Simulation,
            value_type: PropertyType { base: BaseType::String, array: false, nullable: false },
            default: DefaultValue::Text("vertical"),
            unit: None,
            description: "Radio polarization (vertical, horizontal)",
        },
        81 => PropertyDef {
            name: "predict/itm/ground_permittivity",
            alias: None,
            scope: PropertyScope::Simulation,
            value_type: PropertyType { base: BaseType::Float, array: false, nullable: false },
            default: DefaultValue::Float("15.0"),
            unit: None,
            description: "Ground relative permittivity (epsilon)",
        },
        82 => PropertyDef {
            name: "predict/itm/ground_conductivity",
            alias: None,
            scope: PropertyScope::Simulation,
            value_type: PropertyType { base: BaseType::Float, array: false, nullable: false },
            default: DefaultValue::Float("0.005"),
            unit: Some("S/m"),
            description: "Ground conductivity (S/m)",
        },
        83 => PropertyDef {
            name: "predict/itm/surface_refractivity",
            alias: None,
            scope: PropertyScope::Simulation,
            value_type: PropertyType { base: BaseType::Float, array: false, nullable: false },
            default: DefaultValue::Float("301.0"),
            unit: None,
            description: "Surface refractivity (N-units)",
        },
        84 => PropertyDef {
            name: "predict/fspl/min_distance_m",
            alias: None,
            scope: PropertyScope::Simulation,
            value_type: PropertyType { base: BaseType::Float, array: false, nullable: false },
            default: DefaultValue::Float("1.0"),
            unit: Some("m"),
            description: "Minimum distance for free-space path loss model",
        },
        85 => PropertyDef {
            name: "predict/colocated/path_loss_db",
            alias: None,
            scope: PropertyScope::Simulation,
            value_type: PropertyType { base: BaseType::Float, array: false, nullable: false },
            default: DefaultValue::Float("20.0"),
            unit: Some("dB"),
            description: "Fixed near-field path loss for colocated nodes",
        },
        86 => PropertyDef {
            name: "lora/preamble_symbols",
            alias: None,
            scope: PropertyScope::Simulation,
            value_type: PropertyType { base: BaseType::Integer, array: false, nullable: false },
            default: DefaultValue::Integer(8),
            unit: None,
            description: "LoRa preamble symbol count",
        },
        87 => PropertyDef {
            name: "firmware/spin_detection_threshold",
            alias: None,
            scope: PropertyScope::Simulation,
            value_type: PropertyType { base: BaseType::Integer, array: false, nullable: false },
            default: DefaultValue::Integer(3),
            unit: None,
            description: "Poll count before detecting spin/yield",
        },
        88 => PropertyDef {
            name: "firmware/idle_loops_before_yield",
            alias: None,
            scope: PropertyScope::Simulation,
            value_type: PropertyType { base: BaseType::Integer, array: false, nullable: false },
            default: DefaultValue::Integer(2),
            unit: None,
            description: "Idle loop count before yield",
        },
        89 => PropertyDef {
            name: "firmware/log_spin_detection",
            alias: None,
            scope: PropertyScope::Simulation,
            value_type: PropertyType { base: BaseType::Bool, array: false, nullable: false },
            default: DefaultValue::Bool(false),
            unit: None,
            description: "Enable debug logging for spin detection",
        },
        90 => PropertyDef {
            name: "firmware/log_loop_iterations",
            alias: None,
            scope: PropertyScope::Simulation,
            value_type: PropertyType { base: BaseType::Bool, array: false, nullable: false },
            default: DefaultValue::Bool(false),
            unit: None,
            description: "Enable debug logging for loop iterations",
        },
        91 => PropertyDef {
            name: "firmware/initial_rtc_secs",
            alias: None,
            scope: PropertyScope::Simulation,
            value_type: PropertyType { base: BaseType::Integer, array: false, nullable: false },
            default: DefaultValue::Integer(1700000000),
            unit: Some("s"),
            description: "Initial RTC Unix timestamp",
        },
        92 => PropertyDef {
            name: "runner/watchdog_timeout_s",
            alias: None,
            scope: PropertyScope::Simulation,
            value_type: PropertyType { base: BaseType::Integer, array: false, nullable: false },
            default: DefaultValue::Integer(10),
            unit: Some("s"),
            description: "Watchdog stall detection timeout",
        },
        _ => PropertyDef {
            name: "runner/periodic_stats_interval_s",
            alias: None,
            scope: PropertyScope::Simulation,
            value_type: PropertyType { base: BaseType::Integer, array: false, nullable: true },
            default: DefaultValue::Integer(10),
            unit: Some("s"),
            description: "Interval in seconds for periodic stats output in realtime mode (simulation time, event rate, memory usage). If null, periodic stats are disabled",
        },
    }
}

/// The `i`-th registered property (the last one for any larger `i`).
pub fn property_def(i: u64) -> (d: PropertyDef)
    ensures
        d == property_def_at(i),
{
    match i {
        0 => PropertyDef {
            name: "radio/frequency_hz",
            alias: None,
            scope: PropertyScope::Node,
            value_type: PropertyType { base: BaseType::Integer, array: false, nullable: false },
            default: DefaultValue::Integer(910_525_000),
            unit: Some("Hz"),
            description: "Radio frequency in Hz",
        },
        1 => PropertyDef {
            name: "radio/bandwidth_hz",
            alias: None,
            scope: PropertyScope::Node,
            value_type: PropertyType { base: BaseType::Integer, array: false, nullable: false },
            default: DefaultValue::Integer(62_500),
            unit: Some("Hz"),
            description: "Radio bandwidth in Hz",
        },
        2 => PropertyDef {
            name: "radio/spreading_factor",
            alias: None,
            scope: PropertyScope::Node,
            value_type: PropertyType { base: BaseType::Integer, array: false, nullable: false },
            default: DefaultValue::Integer(7),
            unit: None,
            description: "LoRa spreading factor (7-12)",
        },
        3 => PropertyDef {
            name: "radio/coding_rate",
            alias: None,
            scope: PropertyScope::Node,
            value_type: PropertyType { base: BaseType::Integer, array: false, nullable: false },
            default: DefaultValue::Integer(5),
            unit: None,
            description: "LoRa coding rate denominator (5-8, representing 4/5 to 4/8)",
        },
        4 => PropertyDef {
            name: "radio/tx_power_dbm",
            alias: None,
            scope: PropertyScope::Node,
            value_type: PropertyType { base: BaseType::Integer, array: false, nullable: false },
            default: DefaultValue::Integer(20),
            unit: Some("dBm"),
            description: "Transmit power in dBm",
        },
        5 => PropertyDef {
            name: "companion/channels",
            alias: None,
            scope: PropertyScope::Node,
            value_type: PropertyType { base: BaseType::String, array: true, nullable: false },
            default: DefaultValue::Null,
            unit: None,
            description: "Channels to subscribe to at startup (list of channel names). If null, no channels are added at startup",
        },
        6 => PropertyDef {
            name: "companion/contacts",
            alias: None,
            scope: PropertyScope::Node,
            value_type: PropertyType { base: BaseType::String, array: true, nullable: false },
            default: DefaultValue::Null,
            unit: None,
            description: "Contacts to add at startup (list of node names, resolved to public keys). If null, nodes must exchange advertisements",
        },
        7 => PropertyDef {
            name: "companion/auto_contacts_max",
            alias: None,
            scope: PropertyScope::Node,
            value_type: PropertyType { base: BaseType::Integer, array: false, nullable: false },
            default: DefaultValue::Integer(100),
            unit: Some("count"),
            description: "Maximum number of auto-populated contacts when companion/contacts is null (companions first, then other nodes)",
        },
        8 => PropertyDef {
            name: "messaging/flood_ack_timeout_s",
            alias: None,
            scope: PropertyScope::Node,
            value_type: PropertyType { base: BaseType::Float, array: false, nullable: false },
            default: DefaultValue::Float("30.0"),
            unit: Some("s"),
            description: "Timeout waiting for ACK when message sent via flood routing",
        },
        9 => PropertyDef {
            name: "messaging/direct_ack_timeout_per_hop_s",
            alias: None,
            scope: PropertyScope::Node,
            value_type: PropertyType { base: BaseType::Float, array: false, nullable: false },
            default: DefaultValue::Float("5.0"),
            unit: Some("s"),
            description: "Timeout per hop when message sent via direct routing (total timeout = path_length × this value)",
        },
        10 => PropertyDef {
            name: "messaging/direct_attempts",
            alias: None,
            scope: PropertyScope::Node,
            value_type: PropertyType { base: BaseType::Integer, array: false, nullable: false },
            default: DefaultValue::Integer(3),
            unit: None,
            description: "Number of attempts using direct routing before clearing path and switching to flood (only applies when path is known)",
        },
        11 => PropertyDef {
            name: "messaging/flood_attempts_after_direct",
            alias: None,
            scope: PropertyScope::Node,
            value_type: PropertyType { base: BaseType::Integer, array: false, nullable: false },
            default: DefaultValue::Integer(1),
            unit: None,
            description: "Number of flood attempts after direct attempts exhausted (only applies when starting with a known path)",
        },
        12 => PropertyDef {
            name: "messaging/flood_attempts_no_path",
            alias: None,
            scope: PropertyScope::Node,
            value_type: PropertyType { base: BaseType::Integer, array: false, nullable: false },
            default: DefaultValue::Integer(3),
            unit: None,
            description: "Number of flood attempts when no path is known to the recipient",
        },
        13 => PropertyDef {
            name: "room_server/room_id",
            alias: None,
            scope: PropertyScope::Node,
            value_type: PropertyType { base: BaseType::String, array: false, nullable: true },
            default: DefaultValue::Null,
            unit: None,
            description: "Room ID for room server (16-byte hex string)",
        },
        14 => PropertyDef {
            name: "agent/direct/enabled",
            alias: None,
            scope: PropertyScope::Node,
            value_type: PropertyType { base: BaseType::Bool, array: false, nullable: false },
            default: DefaultValue::Bool(false),
            unit: None,
            description: "Enable sending direct messages",
        },
        15 => PropertyDef {
            name: "agent/direct/startup_s",
            alias: None,
            scope: PropertyScope::Node,
            value_type: PropertyType { base: BaseType::Float, array: false, nullable: false },
            default: DefaultValue::Float("0.0"),
            unit: Some("s"),
            description: "Wait time before starting direct messages",
        },
        16 => PropertyDef {
            name: "agent/direct/startup_jitter_s",
            alias: None,
            scope: PropertyScope::Node,
            value_type: PropertyType { base: BaseType::Float, array: false, nullable: false },
            default: DefaultValue::Float("0.0"),
            unit: Some("s"),
            description: "Standard deviation in the randomness of the startup interval",
        },
        17 => PropertyDef {
            name: "agent/direct/targets",
            alias: None,
            scope: PropertyScope::Node,
            value_type: PropertyType { base: BaseType::String, array: true, nullable: true },
            default: DefaultValue::Null,
            unit: Some("node_name"),
            description: "Names of nodes to target direct messages to. Multiple targets rotate per message. If null, all other companions are targeted randomly",
        },
        18 => PropertyDef {
            name: "agent/direct/interval_s",
            alias: None,
            scope: PropertyScope::Node,
            value_type: PropertyType { base: BaseType::Float, array: false, nullable: false },
            default: DefaultValue::Float("5.0"),
            unit: Some("s"),
            description: "Interval after receiving an ack (or timeout) before sending the next message",
        },
        19 => PropertyDef {
            name: "agent/direct/interval_jitter_s",
            alias: None,
            scope: PropertyScope::Node,
            value_type: PropertyType { base: BaseType::Float, array: false, nullable: false },
            default: DefaultValue::Float("0.0"),
            unit: Some("s"),
            description: "Standard deviation of the randomness in the message interval timer",
        },
        20 => PropertyDef {
            name: "agent/direct/ack_timeout_s",
            alias: None,
            scope: PropertyScope::Node,
            value_type: PropertyType { base: BaseType::Float, array: false, nullable: false },
            default: DefaultValue::Float("10.0"),
            unit: Some("s"),
            description: "Timeout waiting for an ACK before proceeding",
        },
        21 => PropertyDef {
            name: "agent/direct/session_message_count",
            alias: None,
            scope: PropertyScope::Node,
            value_type: PropertyType { base: BaseType::Integer, array: false, nullable: true },
            default: DefaultValue::Null,
            unit: None,
            description: "Pause after this many messages before waiting for session_interval_s. If null, messaging continues without session breaks",
        },
        22 => PropertyDef {
            name: "agent/direct/session_interval_s",
            alias: None,
            scope: PropertyScope::Node,
            value_type: PropertyType { base: BaseType::Float, array: false, nullable: false },
            default: DefaultValue::Float("3600.0"),
            unit: Some("s"),
            description: "Time to wait for the next session",
        },
        23 => PropertyDef {
            name: "agent/direct/session_interval_jitter_s",
            alias: None,
            scope: PropertyScope::Node,
            value_type: PropertyType { base: BaseType::Float, array: false, nullable: false },
            default: DefaultValue::Float("0.0"),
            unit: Some("s"),
            description: "Standard deviation of randomness in the session interval timer",
        },
        24 => PropertyDef {
            name: "agent/direct/message_count",
            alias: None,
            scope: PropertyScope::Node,
            value_type: PropertyType { base: BaseType::Integer, array: false, nullable: true },
            default: DefaultValue::Null,
            unit: None,
            description: "Total count of messages before the agent stops sending. If null, sends indefinitely",
        },
        25 => PropertyDef {
            name: "agent/direct/shutdown_s",
            alias: None,
            scope: PropertyScope::Node,
            value_type: PropertyType { base: BaseType::Float, array: false, nullable: true },
            default: DefaultValue::Null,
            unit: Some("s"),
            description: "Time before the agent stops sending. If null, sends indefinitely",
        },
        26 => PropertyDef {
            name: "agent/channel/enabled",
            alias: None,
            scope: PropertyScope::Node,
            value_type: PropertyType { base: BaseType::Bool, array: false, nullable: false },
            default: DefaultValue::Bool(false),
            unit: None,
            description: "Enable sending channel messages",
        },
        27 => PropertyDef {
            name: "agent/channel/startup_s",
            alias: None,
            scope: PropertyScope::Node,
            value_type: PropertyType { base: BaseType::Float, array: false, nullable: false },
            default: DefaultValue::Float("0.0"),
            unit: Some("s"),
            description: "Wait time before starting channel messages",
        },
        28 => PropertyDef {
            name: "agent/channel/startup_jitter_s",
            alias: None,
            scope: PropertyScope::Node,
            value_type: PropertyType { base: BaseType::Float, array: false, nullable: false },
            default: DefaultValue::Float("0.0"),
            unit: Some("s"),
            description: "Standard deviation in the randomness of the startup interval",
        },
        29 => PropertyDef {
            name: "agent/channel/targets",
            alias: None,
            scope: PropertyScope::Node,
            value_type: PropertyType { base: BaseType::String, array: true, nullable: false },
            default: DefaultValue::OneText("Public"),
            unit: None,
            description: "Names of channels to target channel messages to. Multiple channels rotate per message",
        },
        30 => PropertyDef {
            name: "agent/channel/interval_s",
            alias: None,
            scope: PropertyScope::Node,
            value_type: PropertyType { base: BaseType::Float, array: false, nullable: false },
            default: DefaultValue::Float("5.0"),
            unit: Some("s"),
            description: "Interval after sending before sending the next message",
        },
        31 => PropertyDef {
            name: "agent/channel/interval_jitter_s",
            alias: None,
            scope: PropertyScope::Node,
            value_type: PropertyType { base: BaseType::Float, array: false, nullable: false },
            default: DefaultValue::Float("0.0"),
            unit: Some("s"),
            description: "Standard deviation of the randomness in the message interval timer",
        },
        32 => PropertyDef {
            name: "agent/channel/session_message_count",
            alias: None,
            scope: PropertyScope::Node,
            value_type: PropertyType { base: BaseType::Integer, array: false, nullable: true },
            default: DefaultValue::Null,
            unit: None,
            description: "Pause after this many messages before waiting for session_interval_s. If null, messaging continues without session breaks",
        },
        33 => PropertyDef {
            name: "agent/channel/session_interval_s",
            alias: None,
            scope: PropertyScope::Node,
            value_type: PropertyType { base: BaseType::Float, array: false, nullable: false },
            default: DefaultValue::Float("3600.0"),
            unit: Some("s"),
            description: "Time to wait for the next session",
        },
        34 => PropertyDef {
            name: "agent/channel/session_interval_jitter_s",
            alias: None,
            scope: PropertyScope::Node,
            value_type: PropertyType { base: BaseType::Float, array: false, nullable: false },
            default: DefaultValue::Float("0.0"),
            unit: Some("s"),
            description: "Standard deviation of randomness in the session interval timer",
        },
        35 => PropertyDef {
            name: "agent/channel/message_count",
            alias: None,
            scope: PropertyScope::Node,
            value_type: PropertyType { base: BaseType::Integer, array: false, nullable: true },
            default: DefaultValue::Null,
            unit: None,
            description: "Total count of messages before the agent stops sending. If null, sends indefinitely",
        },
        36 => PropertyDef {
            name: "agent/channel/shutdown_s",
            alias: None,
            scope: PropertyScope::Node,
            value_type: PropertyType { base: BaseType::Float, array: false, nullable: true },
            default: DefaultValue::Null,
            unit: Some("s"),
            description: "Time before the agent stops sending. If null, sends indefinitely",
        },
        37 => PropertyDef {
            name: "link/mean_snr_db_at20dbm",
            alias: Some("mean_snr_db_at20dbm"),
            scope: PropertyScope::Edge,
            value_type: PropertyType { base: BaseType::Float, array: false, nullable: false },
            default: DefaultValue::Float("0.0"),
            unit: Some("dB"),
            description: "Mean signal-to-noise ratio at the receiver when transmitter is at 20 dBm",
        },
        38 => PropertyDef {
            name: "link/snr_std_dev",
            alias: Some("snr_std_dev"),
            scope: PropertyScope::Edge,
            value_type: PropertyType { base: BaseType::Float, array: false, nullable: false },
            default: DefaultValue::Float("1.8"),
            unit: Some("dB"),
            description: "Standard deviation of SNR for Gaussian fading model",
        },
        39 => PropertyDef {
            name: "link/rssi_dbm",
            alias: Some("rssi_dbm"),
            scope: PropertyScope::Edge,
            value_type: PropertyType { base: BaseType::Float, array: false, nullable: false },
            default: DefaultValue::Float("-100.0"),
            unit: Some("dBm"),
            description: "Received signal strength indicator",
        },
        40 => PropertyDef {
            name: "simulation/duration_s",
            alias: None,
            scope: PropertyScope::Simulation,
            value_type: PropertyType { base: BaseType::Float, array: false, nullable: false },
            default: DefaultValue::Float("3600.0"),
            unit: Some("s"),
            description: "Total simulation duration",
        },
        41 => PropertyDef {
            name: "simulation/seed",
            alias: None,
            scope: PropertyScope::Simulation,
            value_type: PropertyType { base: BaseType::Integer, array: false, nullable: false },
            default: DefaultValue::Integer(0),
            unit: None,
            description: "Random seed for reproducible simulations",
        },
        42 => PropertyDef {
            name: "simulation/uart_base_port",
            alias: None,
            scope: PropertyScope::Simulation,
            value_type: PropertyType { base: BaseType::Integer, array: false, nullable: false },
            default: DefaultValue::Integer(9000),
            unit: Some("port"),
            description: "Base TCP port for UART connections",
        },
        43 => PropertyDef {
            name: "keys/private_key",
            alias: None,
            scope: PropertyScope::Node,
            value_type: PropertyType { base: BaseType::String, array: false, nullable: false },
            default: DefaultValue::Text("*"),
            unit: None,
            description: "Private key specification. Modes: '*' = random keypair, 'prefix*' = generate until public key starts with prefix, or 64 hex chars for exact key",
        },
        44 => PropertyDef {
            name: "keys/public_key",
            alias: None,
            scope: PropertyScope::Node,
            value_type: PropertyType { base: BaseType::String, array: false, nullable: false },
            default: DefaultValue::Text("*"),
            unit: None,
            description: "Public key specification. Modes: '*' = random keypair, 'prefix*' = generate until public key starts with prefix, or 64 hex chars for exact key",
        },
        45 => PropertyDef {
            name: "location/latitude",
            alias: Some("location/lat"),
            scope: PropertyScope::Node,
            value_type: PropertyType { base: BaseType::Float, array: false, nullable: false },
            default: DefaultValue::Float("0.0"),
            unit: Some("degrees"),
            description: "Latitude of the node in decimal degrees",
        },
        46 => PropertyDef {
            name: "location/longitude",
            alias: Some("location/lon"),
            scope: PropertyScope::Node,
            value_type: PropertyType { base: BaseType::Float, array: false, nullable: false },
            default: DefaultValue::Float("0.0"),
            unit: Some("degrees"),
            description: "Longitude of the node in decimal degrees",
        },
        47 => PropertyDef {
            name: "location/altitude_m",
            alias: Some("location/alt"),
            scope: PropertyScope::Node,
            value_type: PropertyType { base: BaseType::Float, array: false, nullable: true },
            default: DefaultValue::Null,
            unit: Some("m"),
            description: "Altitude of the node in meters",
        },
        48 => PropertyDef {
            name: "firmware/type",
            alias: None,
            scope: PropertyScope::Node,
            value_type: PropertyType { base: BaseType::String, array: false, nullable: false },
            default: DefaultValue::Text("Repeater"),
            unit: None,
            description: "Firmware type of the node (\"repeater\", \"companion\", \"roomserver\")",
        },
        49 => PropertyDef {
            name: "firmware/uart_port",
            alias: None,
            scope: PropertyScope::Node,
            value_type: PropertyType { base: BaseType::Integer, array: false, nullable: true },
            default: DefaultValue::Null,
            unit: Some("port"),
            description: "TCP port to expose the UART interface on",
        },
        50 => PropertyDef {
            name: "firmware/startup_time_s",
            alias: None,
            scope: PropertyScope::Node,
            value_type: PropertyType { base: BaseType::Float, array: false, nullable: false },
            default: DefaultValue::Float("0.0"),
            unit: Some("s"),
            description: "Startup delay time for the firmware in seconds. The firmware will not process any events until this time has passed. Use with startup_time_jitter_s for randomization",
        },
        51 => PropertyDef {
            name: "firmware/startup_time_jitter_s",
            alias: None,
            scope: PropertyScope::Node,
            value_type: PropertyType { base: BaseType::Float, array: false, nullable: false },
            default: DefaultValue::Float("0.0"),
            unit: Some("s"),
            description: "Jitter for the firmware startup time in seconds. Applied as uniform random value in range [-jitter, +jitter]",
        },
        52 => PropertyDef {
            name: "metrics/groups",
            alias: None,
            scope: PropertyScope::Node,
            value_type: PropertyType { base: BaseType::String, array: true, nullable: false },
            default: DefaultValue::EmptyList,
            unit: None,
            description: "Groups this node belongs to for metrics aggregation",
        },
        53 => PropertyDef {
            name: "metrics/warmup_s",
            alias: None,
            scope: PropertyScope::Simulation,
            value_type: PropertyType { base: BaseType::Float, array: false, nullable: false },
            default: DefaultValue::Float("0.0"),
            unit: Some("s"),
            description: "Warmup period in seconds before metrics collection starts. Metrics recorded during this period are discarded to allow the simulation to reach steady state",
        },
        54 => PropertyDef {
            name: "cli/password",
            alias: None,
            scope: PropertyScope::Node,
            value_type: PropertyType { base: BaseType::String, array: false, nullable: true },
            default: DefaultValue::Text("admin"),
            unit: None,
            description: "Admin password for CLI access. If set, the CLI agent sends this password at startup to authenticate",
        },
        55 => PropertyDef {
            name: "cli/commands",
            alias: None,
            scope: PropertyScope::Node,
            value_type: PropertyType { base: BaseType::String, array: true, nullable: false },
            default: DefaultValue::EmptyList,
            unit: None,
            description: "CLI commands to execute at startup. List of raw command strings (e.g., ['set rxdelay 0', 'set name MyNode'])",
        },
        56 => PropertyDef {
            name: "radio/capture_effect_threshold_db",
            alias: None,
            scope: PropertyScope::Simulation,
            value_type: PropertyType { base: BaseType::Float, array: false, nullable: false },
            default: DefaultValue::Float("6.0"),
            unit: Some("dB"),
            description: "Minimum SNR difference required for capture effect (stronger signal captures the receiver)",
        },
        57 => PropertyDef {
            name: "radio/noise_floor_dbm",
            alias: None,
            scope: PropertyScope::Simulation,
            value_type: PropertyType { base: BaseType::Float, array: false, nullable: false },
            default: DefaultValue::Float("-120.0"),
            unit: Some("dBm"),
            description: "LoRa noise floor at 250kHz bandwidth",
        },
        58 => PropertyDef {
            name: "radio/rx_to_tx_turnaround_us",
            alias: None,
            scope: PropertyScope::Simulation,
            value_type: PropertyType { base: BaseType::Integer, array: false, nullable: false },
            default: DefaultValue::Integer(100),
            unit: Some("µs"),
            description: "RX to TX turnaround time (radio mode switch delay)",
        },
        59 => PropertyDef {
            name: "radio/tx_to_rx_turnaround_us",
            alias: None,
            scope: PropertyScope::Simulation,
            value_type: PropertyType { base: BaseType::Integer, array: false, nullable: false },
            default: DefaultValue::Integer(100),
            unit: Some("µs"),
            description: "TX to RX turnaround time (radio mode switch delay)",
        },
        60 => PropertyDef {
            name: "radio/snr_threshold_sf7_db",
            alias: None,
            scope: PropertyScope::Simulation,
            value_type: PropertyType { base: BaseType::Float, array: false, nullable: false },
            default: DefaultValue::Float("-7.5"),
            unit: Some("dB"),
            description: "SNR demodulation threshold for SF7",
        },
        61 => PropertyDef {
            name: "radio/snr_threshold_sf8_db",
            alias: None,
            scope: PropertyScope::Simulation,
            value_type: PropertyType { base: BaseType::Float, array: false, nullable: false },
            default: DefaultValue::Float("-10.0"),
            unit: Some("dB"),
            description: "SNR demodulation threshold for SF8",
        },
        62 => PropertyDef {
            name: "radio/snr_threshold_sf9_db",
            alias: None,
            scope: PropertyScope::Simulation,
            value_type: PropertyType { base: BaseType::Float, array: false, nullable: false },
            default: DefaultValue::Float("-12.5"),
            unit: Some("dB"),
            description: "SNR demodulation threshold for SF9",
        },
        63 => PropertyDef {
            name: "radio/snr_threshold_sf10_db",
            alias: None,
            scope: PropertyScope::Simulation,
            value_type: PropertyType { base: BaseType::Float, array: false, nullable: false },
            default: DefaultValue::Float("-15.0"),
            unit: Some("dB"),
            description: "SNR demodulation threshold for SF10",
        },
        64 => PropertyDef {
            name: "radio/snr_threshold_sf11_db",
            alias: None,
            scope: PropertyScope::Simulation,
            value_type: PropertyType { base: BaseType::Float, array: false, nullable: false },
            default: DefaultValue::Float("-17.5"),
            unit: Some("dB"),
            description: "SNR demodulation threshold for SF11",
        },
        65 => PropertyDef {
            name: "radio/snr_threshold_sf12_db",
            alias: None,
            scope: PropertyScope::Simulation,
            value_type: PropertyType { base: BaseType::Float, array: false, nullable: false },
            default: DefaultValue::Float("-20.0"),
            unit: Some("dB"),
            description: "SNR demodulation threshold for SF12",
        },
        66 => PropertyDef {
            name: "link/margin_excellent_db",
            alias: None,
            scope: PropertyScope::Simulation,
            value_type: PropertyType { base: BaseType::Float, array: false, nullable: false },
            default: DefaultValue::Float("10.0"),
            unit: Some("dB"),
            description: "Minimum margin for excellent link quality",
        },
        67 => PropertyDef {
            name: "link/margin_good_db",
            alias: None,
            scope: PropertyScope::Simulation,
            value_type: PropertyType { base: BaseType::Float, array: false, nullable: false },
            default: DefaultValue::Float("5.0"),
            unit: Some("dB"),
            description: "Minimum margin for good link quality",
        },
        68 => PropertyDef {
            name: "link/margin_marginal_db",
            alias: None,
            scope: PropertyScope::Simulation,
            value_type: PropertyType { base: BaseType::Float, array: false, nullable: false },
            default: DefaultValue::Float("0.0"),
            unit: Some("dB"),
            description: "Minimum margin for marginal link quality",
        },
        69 => PropertyDef {
            name: "predict/radio/frequency_mhz",
            alias: None,
            scope: PropertyScope::Simulation,
            value_type: PropertyType { base: BaseType::Float, array: false, nullable: false },
            default: DefaultValue::Float("910.525"),
            unit: Some("MHz"),
            description: "Radio frequency in MHz for link prediction",
        },
        70 => PropertyDef {
            name: "predict/radio/tx_power_dbm",
            alias: None,
            scope: PropertyScope::Simulation,
            value_type: PropertyType { base: BaseType::Integer, array: false, nullable: false },
            default: DefaultValue::Integer(20),
            unit: Some("dBm"),
            description: "TX power in dBm for link prediction",
        },
        71 => PropertyDef {
            name: "predict/radio/spreading_factor",
            alias: None,
            scope: PropertyScope::Simulation,
            value_type: PropertyType { base: BaseType::Integer, array: false, nullable: false },
            default: DefaultValue::Integer(7),
            unit: None,
            description: "LoRa spreading factor (7-12) for link prediction",
        },
        72 => PropertyDef {
            name: "predict/terrain/dem_dir",
            alias: None,
            scope: PropertyScope::Simulation,
            value_type: PropertyType { base: BaseType::String, array: false, nullable: false },
            default: DefaultValue::Text("./dem_data"),
            unit: None,
            description: "Path to DEM data directory for terrain lookups (used for USGS tiles)",
        },
        73 => PropertyDef {
            name: "predict/terrain/elevation_cache_dir",
            alias: None,
            scope: PropertyScope::Simulation,
            value_type: PropertyType { base: BaseType::String, array: false, nullable: false },
            default: DefaultValue::Text("./elevation_cache"),
            unit: None,
            description: "Path to elevation tile cache directory for AWS terrain tiles",
        },
        74 => PropertyDef {
            name: "predict/terrain/source",
            alias: None,
            scope: PropertyScope::Simulation,
            value_type: PropertyType { base: BaseType::String, array: false, nullable: false },
            default: DefaultValue::Text("aws"),
            unit: None,
            description: "Elevation data source: 'aws' (fetch 512x512 GeoTIFF tiles from AWS Open Data) or 'local_dem' (use local USGS DEM files from dem_dir)",
        },
        75 => PropertyDef {
            name: "predict/terrain/elevation_zoom_level",
            alias: None,
            scope: PropertyScope::Simulation,
            value_type: PropertyType { base: BaseType::Integer, array: false, nullable: false },
            default: DefaultValue::Integer(12),
            unit: None,
            description: "Zoom level for AWS elevation tiles (1-14, higher = more detail). Zoom 12 provides ~38m resolution at equator",
        },
        76 => PropertyDef {
            name: "predict/terrain/samples",
            alias: None,
            scope: PropertyScope::Simulation,
            value_type: PropertyType { base: BaseType::Integer, array: false, nullable: false },
            default: DefaultValue::Integer(100),
            unit: None,
            description: "Number of terrain samples along the path for link prediction",
        },
        77 => PropertyDef {
            name: "predict/itm/min_distance_m",
            alias: None,
            scope: PropertyScope::Simulation,
            value_type: PropertyType { base: BaseType::Float, array: false, nullable: false },
            default: DefaultValue::Float("1000.0"),
            unit: Some("m"),
            description: "Minimum path distance for ITM model",
        },
        78 => PropertyDef {
            name: "predict/itm/terrain_samples",
            alias: None,
            scope: PropertyScope::Simulation,
            value_type: PropertyType { base: BaseType::Integer, array: false, nullable: false },
            default: DefaultValue::Integer(100),
            unit: None,
            description: "Number of elevation points in terrain profile",
        },
        79 => PropertyDef {
            name: "predict/itm/climate",
            alias: None,
            scope: PropertyScope::Simulation,
            value_type: PropertyType { base: BaseType::String, array: false, nullable: false },
            default: DefaultValue::Text("continental_temperate"),
            unit: None,
            description: "Radio climate setting (continental_temperate, etc.)",
        },
        80 => PropertyDef {
            name: "predict/itm/polarization",
            alias: None,
            scope: PropertyScope::Simulation,
            value_type: PropertyType { base: BaseType::String, array: false, nullable: false },
            default: DefaultValue::Text("vertical"),
            unit: None,
            description: "Radio polarization (vertical, horizontal)",
        },
        81 => PropertyDef {
            name: "predict/itm/ground_permittivity",
            alias: None,
            scope: PropertyScope::Simulation,
            value_type: PropertyType { base: BaseType::Float, array: false, nullable: false },
            default: DefaultValue::Float("15.0"),
            unit: None,
            description: "Ground relative permittivity (epsilon)",
        },
        82 => PropertyDef {
            name: "predict/itm/ground_conductivity",
            alias: None,
            scope: PropertyScope::Simulation,
            value_type: PropertyType { base: BaseType::Float, array: false, nullable: false },
            default: DefaultValue::Float("0.005"),
            unit: Some("S/m"),
            description: "Ground conductivity (S/m)",
        },
        83 => PropertyDef {
            name: "predict/itm/surface_refractivity",
            alias: None,
            scope: PropertyScope::Simulation,
            value_type: PropertyType { base: BaseType::Float, array: false, nullable: false },
            default: DefaultValue::Float("301.0"),
            unit: None,
            description: "Surface refractivity (N-units)",
        },
        84 => PropertyDef {
            name: "predict/fspl/min_distance_m",
            alias: None,
            scope: PropertyScope::Simulation,
            value_type: PropertyType { base: BaseType::Float, array: false, nullable: false },
            default: DefaultValue::Float("1.0"),
            unit: Some("m"),
            description: "Minimum distance for free-space path loss model",
        },
        85 => PropertyDef {
            name: "predict/colocated/path_loss_db",
            alias: None,
            scope: PropertyScope::Simulation,
            value_type: PropertyType { base: BaseType::Float, array: false, nullable: false },
            default: DefaultValue::Float("20.0"),
            unit: Some("dB"),
            description: "Fixed near-field path loss for colocated nodes",
        },
        86 => PropertyDef {
            name: "lora/preamble_symbols",
            alias: None,
            scope: PropertyScope::Simulation,
            value_type: PropertyType { base: BaseType::Integer, array: false, nullable: false },
            default: DefaultValue::Integer(8),
            unit: None,
            description: "LoRa preamble symbol count",
        },
        87 => PropertyDef {
            name: "firmware/spin_detection_threshold",
            alias: None,
            scope: PropertyScope::Simulation,
            value_type: PropertyType { base: BaseType::Integer, array: false, nullable: false },
            default: DefaultValue::Integer(3),
            unit: None,
            description: "Poll count before detecting spin/yield",
        },
        88 => PropertyDef {
            name: "firmware/idle_loops_before_yield",
            alias: None,
            scope: PropertyScope::Simulation,
            value_type: PropertyType { base: BaseType::Integer, array: false, nullable: false },
            default: DefaultValue::Integer(2),
            unit: None,
            description: "Idle loop count before yield",
        },
        89 => PropertyDef {
            name: "firmware/log_spin_detection",
            alias: None,
            scope: PropertyScope::Simulation,
            value_type: PropertyType { base: BaseType::Bool, array: false, nullable: false },
            default: DefaultValue::Bool(false),
            unit: None,
            description: "Enable debug logging for spin detection",
        },
        90 => PropertyDef {
            name: "firmware/log_loop_iterations",
            alias: None,
            scope: PropertyScope::Simulation,
            value_type: PropertyType { base: BaseType::Bool, array: false, nullable: false },
            default: DefaultValue::Bool(false),
            unit: None,
            description: "Enable debug logging for loop iterations",
        },
        91 => PropertyDef {
            name: "firmware/initial_rtc_secs",
            alias: None,
            scope: PropertyScope::Simulation,
            value_type: PropertyType { base: BaseType::Integer, array: false, nullable: false },
            default: DefaultValue::Integer(1700000000),
            unit: Some("s"),
            description: "Initial RTC Unix timestamp",
        },
        92 => PropertyDef {
            name: "runner/watchdog_timeout_s",
            alias: None,
            scope: PropertyScope::Simulation,
            value_type: PropertyType { base: BaseType::Integer, array: false, nullable: false },
            default: DefaultValue::Integer(10),
            unit: Some("s"),
            description: "Watchdog stall detection timeout",
        },
        _ => PropertyDef {
            name: "runner/periodic_stats_interval_s",
            alias: None,
            scope: PropertyScope::Simulation,
            value_type: PropertyType { base: BaseType::Integer, array: false, nullable: true },
            default: DefaultValue::Integer(10),
            unit: Some("s"),
            description: "Interval in seconds for periodic stats output in realtime mode (simulation time, event rate, memory usage). If null, periodic stats are disabled",
        },
    }
}

/// The registered properties, in order.
pub open spec fn property_table() -> Seq<PropertyDef> {
    Seq::new(PROPERTY_COUNT as nat, |i: int| property_def_at(i as u64))
}

/// A property answers to its name and to its alias.
pub open spec fn def_matches(d: PropertyDef, name: Seq<char>) -> bool {
    d.name@ == name || (d.alias matches Some(a) && a@ == name)
}

/// The names and aliases of the registered properties.
pub open spec fn property_names() -> Set<Seq<char>> {
    Set::new(
        |n: Seq<char>|
            exists|i: int| 0 <= i < property_table().len() && def_matches(#[trigger] property_table()[i], n),
    )
}

/// `i` is the first registered property that answers to `name`.
pub open spec fn first_match(name: Seq<char>, i: int) -> bool {
    &&& 0 <= i < property_table().len()
    &&& def_matches(property_table()[i], name)
    &&& forall|j: int| 0 <= j < i ==> !def_matches(#[trigger] property_table()[j], name)
}

fn answers_to(d: &PropertyDef, name: &[char]) -> (b: bool)
    ensures
        b == def_matches(*d, name@),
{
    if chars_eq_str(name, d.name) {
        return true;
    }
    match d.alias {
        Some(a) => chars_eq_str(name, a),
        None => false,
    }
}

/// The first registered property that answers to `name` (its name or its
/// alias), if any.
pub fn get_property_def(name: &str) -> (r: Option<PropertyDef>)
    ensures
        match r {
            Some(d) => exists|i: int| first_match(name@, i) && d == property_table()[i],
            None => !property_names().contains(name@),
        },
{
    let chars = str_chars(name);
    let mut i: u64 = 0;
    while i < PROPERTY_COUNT
        invariant
            i <= PROPERTY_COUNT,
            chars@ == name@,
            forall|j: int| 0 <= j < i ==> !def_matches(#[trigger] property_table()[j], name@),
        decreases PROPERTY_COUNT - i,
    {
        let d = property_def(i);
        assert(property_table()[i as int] == property_def_at(i));
        if answers_to(&d, chars.as_slice()) {
            assert(first_match(name@, i as int));
            return Some(d);
        }
        i = i + 1;
    }
    assert(!property_names().contains(name@));
    None
}

/// Whether a property of that name or alias is registered.
pub fn is_known_property(name: &str) -> (b: bool)
    ensures
        b == property_names().contains(name@),
{
    match get_property_def(name) {
        Some(_) => true,
        None => false,
    }
}

/// The built-in default of the property that answers to `name`, if any.
pub fn default_value(name: &str) -> (r: Option<DefaultValue>)
    ensures
        match r {
            Some(v) => exists|i: int| first_match(name@, i) && v == property_table()[i].default,
            None => !property_names().contains(name@),
        },
{
    match get_property_def(name) {
        Some(d) => Some(d.default),
        None => None,
    }
}

/// The properties of a scope among `s`, in order.
pub open spec fn of_scope(s: Seq<PropertyDef>, scope: PropertyScope) -> Seq<PropertyDef>
    decreases s.len(),
{
    if s.len() == 0 {
        Seq::empty()
    } else {
        let r = of_scope(s.drop_last(), scope);
        if s.last().scope == scope {
            r.push(s.last())
        } else {
            r
        }
    }
}

/// The registered properties of a scope, in registry order.
pub fn properties_by_scope(scope: PropertyScope) -> (r: Vec<PropertyDef>)
    ensures
        r@ == of_scope(property_table(), scope),
{
    let mut r: Vec<PropertyDef> = Vec::new();
    let mut i: u64 = 0;
    while i < PROPERTY_COUNT
        invariant
            i <= PROPERTY_COUNT,
            r@ == of_scope(property_table().take(i as int), scope),
        decreases PROPERTY_COUNT - i,
    {
        let d = property_def(i);
        assert(property_table().take(i + 1).drop_last() =~= property_table().take(i as int));
        assert(property_table().take(i + 1).last() == d);
        if d.scope == scope {
            r.push(d);
        }
        i = i + 1;
    }
    assert(property_table().take(PROPERTY_COUNT as int) =~= property_table());
    r
}

// ----------------------------------------------------------------------------
// Namespaces
// ----------------------------------------------------------------------------

/// The position of the last `/` in `s`, or -1.
pub open spec fn last_slash(s: Seq<char>) -> int
    decreases s.len(),
{
    if s.len() == 0 {
        -1
    } else if s.last() == '/' {
        s.len() - 1
    } else {
        last_slash(s.drop_last())
    }
}

/// The namespace of a name: what comes before its last `/`; none without a
/// `/`.
pub open spec fn namespace_of(name: Seq<char>) -> Option<Seq<char>> {
    if last_slash(name) < 0 {
        None
    } else {
        Some(name.take(last_slash(name)))
    }
}

proof fn lemma_last_slash_range(s: Seq<char>)
    ensures
        -1 <= last_slash(s) < s.len(),
    decreases s.len(),
{
    if s.len() > 0 {
        lemma_last_slash_range(s.drop_last());
    }
}

/// The namespace of a name, by the characters of the name.
fn namespace_chars(name: &[char]) -> (r: Option<Vec<char>>)
    ensures
        match r {
            Some(v) => namespace_of(name@) == Some(v@),
            None => namespace_of(name@) is None,
        },
{
    let mut k: usize = name.len();
    assert(name@.take(name@.len() as int) =~= name@);
    while k > 0
        invariant
            k <= name@.len(),
            last_slash(name@) == last_slash(name@.take(k as int)),
        decreases k,
    {
        assert(name@.take(k as int).drop_last() =~= name@.take(k - 1));
        assert(name@.take(k as int).last() == name@[k - 1]);
        if name[k - 1] == '/' {
            let mut v: Vec<char> = Vec::new();
            let mut j: usize = 0;
            while j < k - 1
                invariant
                    j <= k - 1,
                    k <= name@.len(),
                    v@ == name@.take(j as int),
                decreases k - 1 - j,
            {
                v.push(name[j]);
                assert(name@.take(j as int).push(name@[j as int]) =~= name@.take(j + 1));
                j = j + 1;
            }
            return Some(v);
        }
        k = k - 1;
    }
    assert(name@.take(0) =~= Seq::<char>::empty());
    assert(name@.take(name@.len() as int) =~= name@);
    None
}

/// The namespace of a property name: what comes before its last `/`.
pub fn namespace(name: &str) -> (r: Option<String>)
    ensures
        match r {
            Some(s) => namespace_of(name@) == Some(s@),
            None => namespace_of(name@) is None,
        },
{
    let chars = str_chars(name);
    match namespace_chars(chars.as_slice()) {
        Some(v) => Some(string_from_chars(v.as_slice())),
        None => None,
    }
}

/// The properties of a namespace among `s`, in order.
pub open spec fn of_namespace(s: Seq<PropertyDef>, ns: Seq<char>) -> Seq<PropertyDef>
    decreases s.len(),
{
    if s.len() == 0 {
        Seq::empty()
    } else {
        let r = of_namespace(s.drop_last(), ns);
        if namespace_of(s.last().name@) == Some(ns) {
            r.push(s.last())
        } else {
            r
        }
    }
}

/// The registered properties of a namespace, in registry order.
pub fn properties_by_namespace(ns: &str) -> (r: Vec<PropertyDef>)
    ensures
        r@ == of_namespace(property_table(), ns@),
{
    let wanted = str_chars(ns);
    let mut r: Vec<PropertyDef> = Vec::new();
    let mut i: u64 = 0;
    while i < PROPERTY_COUNT
        invariant
            i <= PROPERTY_COUNT,
            wanted@ == ns@,
            r@ == of_namespace(property_table().take(i as int), ns@),
        decreases PROPERTY_COUNT - i,
    {
        let d = property_def(i);
        assert(property_table().take(i + 1).drop_last() =~= property_table().take(i as int));
        assert(property_table().take(i + 1).last() == d);
        let name = str_chars(d.name);
        let matches = match namespace_chars(name.as_slice()) {
            Some(v) => crate::text::chars_eq(v.as_slice(), wanted.as_slice()),
            None => false,
        };
        if matches {
            r.push(d);
        }
        i = i + 1;
    }
    assert(property_table().take(PROPERTY_COUNT as int) =~= property_table());
    r
}

/// `a` comes before `b` in the order of strings: by the first character in
/// which they differ, or the shorter first where one begins the other.
pub open spec fn str_lt(a: Seq<char>, b: Seq<char>) -> bool
    decreases a.len(),
{
    if a.len() == 0 {
        b.len() > 0
    } else if b.len() == 0 {
        false
    } else if a[0] != b[0] {
        a[0] < b[0]
    } else {
        str_lt(a.skip(1), b.skip(1))
    }
}

/// No string comes before itself.
pub proof fn lemma_str_lt_irreflexive(a: Seq<char>)
    ensures
        !str_lt(a, a),
    decreases a.len(),
{
    if a.len() > 0 {
        lemma_str_lt_irreflexive(a.skip(1));
    }
}

/// The order of strings is transitive.
pub proof fn lemma_str_lt_transitive(a: Seq<char>, b: Seq<char>, c: Seq<char>)
    requires
        str_lt(a, b),
        str_lt(b, c),
    ensures
        str_lt(a, c),
    decreases a.len(),
{
    if a.len() > 0 && b.len() > 0 && c.len() > 0 && a[0] == b[0] && b[0] == c[0] {
        lemma_str_lt_transitive(a.skip(1), b.skip(1), c.skip(1));
    }
}

/// Of two different strings, one comes before the other.
pub proof fn lemma_str_lt_total(a: Seq<char>, b: Seq<char>)
    ensures
        a == b || str_lt(a, b) || str_lt(b, a),
    decreases a.len(),
{
    if a.len() > 0 && b.len() > 0 && a[0] == b[0] {
        lemma_str_lt_total(a.skip(1), b.skip(1));
        if a.skip(1) == b.skip(1) {
            assert(a =~= seq![a[0]] + a.skip(1));
            assert(b =~= seq![b[0]] + b.skip(1));
        }
    } else if a.len() == 0 && b.len() == 0 {
        assert(a =~= b);
    }
}

/// Whether `a` comes before `b` in the order of strings.
fn chars_lt(a: &[char], b: &[char]) -> (r: bool)
    ensures
        r == str_lt(a@, b@),
{
    let mut i: usize = 0;
    assert(a@.skip(0) =~= a@);
    assert(b@.skip(0) =~= b@);
    while i < a.len() && i < b.len() && a[i] == b[i]
        invariant
            i <= a@.len(),
            i <= b@.len(),
            str_lt(a@, b@) == str_lt(a@.skip(i as int), b@.skip(i as int)),
        decreases a@.len() - i,
    {
        assert(a@.skip(i as int).skip(1) =~= a@.skip(i + 1));
        assert(b@.skip(i as int).skip(1) =~= b@.skip(i + 1));
        i = i + 1;
    }
    if i == a.len() {
        i < b.len()
    } else if i == b.len() {
        false
    } else {
        a[i] < b[i]
    }
}

/// `n` is the namespace of one of the first `i` registered properties.
pub open spec fn namespace_among(i: int, n: Seq<char>) -> bool {
    exists|j: int| 0 <= j < i && namespace_of((#[trigger] property_table()[j]).name@) == Some(n)
}

/// `n` is the namespace of one of the registered properties.
pub open spec fn is_namespace(n: Seq<char>) -> bool {
    namespace_among(property_table().len() as int, n)
}

/// `n` is among the listed character sequences.
pub open spec fn listed(s: Seq<Vec<char>>, n: Seq<char>) -> bool {
    exists|k: int| 0 <= k < s.len() && (#[trigger] s[k])@ == n
}

proof fn lemma_insert_sorted(old_sorted: Seq<Vec<char>>, sorted: Seq<Vec<char>>, k: int, ns: Vec<char>)
    requires
        0 <= k <= old_sorted.len(),
        sorted == old_sorted.insert(k, ns),
        forall|a: int, b: int| 0 <= a < b < old_sorted.len() ==> str_lt(old_sorted[a]@, old_sorted[b]@),
        forall|j: int| 0 <= j < k ==> str_lt((#[trigger] old_sorted[j])@, ns@),
        k < old_sorted.len() ==> str_lt(ns@, old_sorted[k]@),
    ensures
        forall|a: int, b: int| 0 <= a < b < sorted.len() ==> str_lt(sorted[a]@, sorted[b]@),
{
    assert forall|a: int, b: int| 0 <= a < b < sorted.len() implies str_lt(sorted[a]@, sorted[b]@) by {
        if b < k {
            assert(sorted[a] == old_sorted[a] && sorted[b] == old_sorted[b]);
        } else if b == k {
            assert(sorted[a] == old_sorted[a]);
        } else if a == k {
            assert(sorted[b] == old_sorted[b - 1]);
            if b - 1 > k {
                lemma_str_lt_transitive(ns@, old_sorted[k]@, old_sorted[b - 1]@);
            }
        } else if a < k {
            assert(sorted[a] == old_sorted[a] && sorted[b] == old_sorted[b - 1]);
            lemma_str_lt_transitive(old_sorted[a]@, ns@, old_sorted[k]@);
            if b - 1 > k {
                lemma_str_lt_transitive(old_sorted[a]@, old_sorted[k]@, old_sorted[b - 1]@);
            }
        } else {
            assert(sorted[a] == old_sorted[a - 1] && sorted[b] == old_sorted[b - 1]);
        }
    }
}

proof fn lemma_insert_listed(old_sorted: Seq<Vec<char>>, sorted: Seq<Vec<char>>, k: int, ns: Vec<char>, n: Seq<char>)
    requires
        0 <= k <= old_sorted.len(),
        sorted == old_sorted.insert(k, ns),
    ensures
        listed(sorted, n) <==> (listed(old_sorted, n) || ns@ == n),
{
    if listed(old_sorted, n) {
        let q = choose|q: int| 0 <= q < old_sorted.len() && (#[trigger] old_sorted[q])@ == n;
        if q < k {
            assert(sorted[q] == old_sorted[q]);
        } else {
            assert(sorted[q + 1] == old_sorted[q]);
        }
    }
    if ns@ == n {
        assert(sorted[k] == ns);
    }
    if listed(sorted, n) {
        let q = choose|q: int| 0 <= q < sorted.len() && (#[trigger] sorted[q])@ == n;
        if q < k {
            assert(old_sorted[q] == sorted[q]);
        } else if q > k {
            assert(old_sorted[q - 1] == sorted[q]);
        }
    }
}

proof fn lemma_namespace_among_step(i: int, n: Seq<char>)
    requires
        0 <= i < property_table().len(),
    ensures
        namespace_among(i + 1, n) <==> (namespace_among(i, n) || namespace_of(property_table()[i].name@)
            == Some(n)),
{
    if namespace_among(i + 1, n) {
        let j = choose|j: int| 0 <= j < i + 1 && namespace_of((#[trigger] property_table()[j]).name@) == Some(n);
        if j < i {
        }
    }
}

/// The namespaces of the registered properties, in the order of strings,
/// each once.
pub fn known_namespaces() -> (r: Vec<String>)
    ensures
        forall|a: int, b: int| 0 <= a < b < r@.len() ==> str_lt(r@[a]@, r@[b]@),
        forall|n: Seq<char>| is_namespace(n) <==> exists|k: int| 0 <= k < r@.len() && (#[trigger] r@[k])@ == n,
{
    let mut sorted: Vec<Vec<char>> = Vec::new();
    let mut i: u64 = 0;
    while i < PROPERTY_COUNT
        invariant
            i <= PROPERTY_COUNT,
            forall|a: int, b: int| 0 <= a < b < sorted@.len() ==> str_lt(sorted@[a]@, sorted@[b]@),
            forall|n: Seq<char>| #[trigger] namespace_among(i as int, n) <==> listed(sorted@, n),
        decreases PROPERTY_COUNT - i,
    {
        let d = property_def(i);
        assert(property_table()[i as int] == d);
        let name = str_chars(d.name);
        let ghost old_sorted = sorted@;
        match namespace_chars(name.as_slice()) {
            None => {},
            Some(ns) => {
                let mut k: usize = 0;
                while k < sorted.len() && chars_lt(sorted[k].as_slice(), ns.as_slice())
                    invariant
                        k <= sorted@.len(),
                        forall|j: int| 0 <= j < k ==> str_lt((#[trigger] sorted@[j])@, ns@),
                    decreases sorted@.len() - k,
                {
                    k = k + 1;
                }
                let present = k < sorted.len() && crate::text::chars_eq(sorted[k].as_slice(), ns.as_slice());
                if !present {
                    proof {
                        if k < sorted@.len() {
                            lemma_str_lt_total(sorted@[k as int]@, ns@);
                        }
                    }
                    sorted.insert(k, ns);
                    proof {
                        lemma_insert_sorted(old_sorted, sorted@, k as int, ns);
                        assert forall|n: Seq<char>| listed(sorted@, n) <==> (listed(old_sorted, n) || ns@ == n) by {
                            lemma_insert_listed(old_sorted, sorted@, k as int, ns, n);
                        }
                    }
                } else {
                    assert(listed(old_sorted, ns@)) by {
                        assert(old_sorted[k as int]@ == ns@);
                    }
                }
            },
        }
        assert forall|n: Seq<char>| #[trigger] namespace_among(i + 1, n) <==> listed(sorted@, n) by {
            lemma_namespace_among_step(i as int, n);
        }
        i = i + 1;
    }
    let mut out: Vec<String> = Vec::new();
    let mut q: usize = 0;
    while q < sorted.len()
        invariant
            q <= sorted@.len(),
            out@.len() == q,
            forall|p: int| 0 <= p < q ==> (#[trigger] out@[p])@ == sorted@[p]@,
        decreases sorted@.len() - q,
    {
        out.push(string_from_chars(sorted[q].as_slice()));
        q = q + 1;
    }
    proof {
        assert forall|n: Seq<char>| is_namespace(n) <==> exists|k: int| 0 <= k < out@.len() && (#[trigger] out@[k])@ == n by {
            assert(namespace_among(PROPERTY_COUNT as int, n) <==> listed(sorted@, n));
            if exists|k: int| 0 <= k < out@.len() && (#[trigger] out@[k])@ == n {
                let k = choose|k: int| 0 <= k < out@.len() && (#[trigger] out@[k])@ == n;
                assert(sorted@[k]@ == n);
            }
            if listed(sorted@, n) {
                let k = choose|k: int| 0 <= k < sorted@.len() && (#[trigger] sorted@[k])@ == n;
                assert(out@[k]@ == n);
            }
        }
    }
    out
}

// ----------------------------------------------------------------------------
// Values and property sets
// ----------------------------------------------------------------------------

/// The kind of a property value given in a model.
#[derive(Debug)]
pub enum ValueKind {
    /// A whole number.
    Integer,
    /// A number with a fraction.
    Float,
    /// Text.
    Text,
    /// A truth value.
    Bool,
    /// No value.
    Null,
    /// A list, with the kinds of its elements in order.
    List(Vec<ValueKind>),
}

/// A base type accepts a single value of a kind: whole numbers are numbers
/// too.
pub open spec fn base_accepts(b: BaseType, k: ValueKind) -> bool {
    match b {
        BaseType::Integer => k is Integer,
        BaseType::Float => k is Float || k is Integer,
        BaseType::String => k is Text,
        BaseType::Bool => k is Bool,
    }
}

/// A property type accepts a value: `null` where it is nullable, a list
/// where it is a list type and every element suits its base type, a single
/// value where it is not a list type and the value suits its base type.
pub open spec fn type_accepts(t: PropertyType, v: ValueKind) -> bool {
    match v {
        ValueKind::Null => t.nullable,
        ValueKind::List(items) => t.array && forall|i: int| 0 <= i < items@.len() ==> base_accepts(t.base, #[trigger] items@[i]),
        _ => !t.array && base_accepts(t.base, v),
    }
}

/// How a value's kind is described in errors: `integer`, `float`,
/// `string`, `bool`, `null`, `empty array`, or `array of ` and the
/// description of the first element.
pub open spec fn describe(v: ValueKind) -> Seq<char>
    decreases v,
{
    match v {
        ValueKind::Integer => "integer"@,
        ValueKind::Float => "float"@,
        ValueKind::Text => "string"@,
        ValueKind::Bool => "bool"@,
        ValueKind::Null => "null"@,
        ValueKind::List(items) => if items@.len() == 0 {
            "empty array"@
        } else {
            "array of "@ + describe(items@[0])
        },
    }
}

/// How a value's kind is described in errors.
pub fn describe_value_type(v: &ValueKind) -> (s: String)
    ensures
        s@ == describe(*v),
    decreases v,
{
    let mut out = String::new();
    match v {
        ValueKind::Integer => push_str(&mut out, "integer"),
        ValueKind::Float => push_str(&mut out, "float"),
        ValueKind::Text => push_str(&mut out, "string"),
        ValueKind::Bool => push_str(&mut out, "bool"),
        ValueKind::Null => push_str(&mut out, "null"),
        ValueKind::List(items) => {
            if items.len() == 0 {
                push_str(&mut out, "empty array");
            } else {
                push_str(&mut out, "array of ");
                let first = describe_value_type(&items[0]);
                push_str(&mut out, first.as_str());
            }
        },
    }
    out
}

fn base_accepts_exec(b: BaseType, k: &ValueKind) -> (r: bool)
    ensures
        r == base_accepts(b, *k),
{
    match b {
        BaseType::Integer => match k {
            ValueKind::Integer => true,
            _ => false,
        },
        BaseType::Float => match k {
            ValueKind::Integer | ValueKind::Float => true,
            _ => false,
        },
        BaseType::String => match k {
            ValueKind::Text => true,
            _ => false,
        },
        BaseType::Bool => match k {
            ValueKind::Bool => true,
            _ => false,
        },
    }
}

fn all_accepted(b: BaseType, items: &Vec<ValueKind>) -> (r: bool)
    ensures
        r == forall|i: int| 0 <= i < items@.len() ==> base_accepts(b, #[trigger] items@[i]),
{
    let mut i: usize = 0;
    while i < items.len()
        invariant
            i <= items@.len(),
            forall|j: int| 0 <= j < i ==> base_accepts(b, #[trigger] items@[j]),
        decreases items@.len() - i,
    {
        if !base_accepts_exec(b, &items[i]) {
            assert(!base_accepts(b, items@[i as int]));
            return false;
        }
        i = i + 1;
    }
    true
}

/// Whether a property type accepts a value of the given kind.
pub fn accepts(t: PropertyType, v: &ValueKind) -> (r: bool)
    ensures
        r == type_accepts(t, *v),
{
    match v {
        ValueKind::Null => t.nullable,
        ValueKind::List(items) => t.array && all_accepted(t.base, items),
        _ => !t.array && base_accepts_exec(t.base, v),
    }
}

/// Errors of setting a property.
#[derive(Debug, Clone)]
pub enum PropertySetError {
    /// No property answers to the name.
    UnknownProperty(String),
    /// The property belongs to another scope, given here.
    InvalidPropertyScope(String, PropertyScope),
    /// The value does not suit the property's type.
    TypeMismatch {
        /// The property's name.
        property: String,
        /// The property's type.
        expected: PropertyType,
        /// The description of the value's kind.
        actual: String,
    },
}

/// Check a property given by name in a scope with a value of a kind: the
/// property it names, or why it cannot be set (unknown name, another scope,
/// a value that does not suit its type, in that order).
pub fn check_property(name: &str, scope: PropertyScope, kind: &ValueKind) -> (r: Result<PropertyDef, PropertySetError>)
    ensures
        !property_names().contains(name@) ==> (r matches Err(PropertySetError::UnknownProperty(n)) && n@ == name@),
        property_names().contains(name@) ==> exists|i: int|
            {
                &&& first_match(name@, i)
                &&& {
                    let d = property_table()[i];
                    if d.scope != scope {
                        r matches Err(PropertySetError::InvalidPropertyScope(n, s)) && n@ == name@ && s == d.scope
                    } else if !type_accepts(d.value_type, *kind) {
                        r matches Err(PropertySetError::TypeMismatch { property, expected, actual }) && property@ == d.name@
                            && expected == d.value_type && actual@ == describe(*kind)
                    } else {
                        r matches Ok(x) && x == d
                    }
                }
            },
{
    let chars = str_chars(name);
    match get_property_def(name) {
        None => Err(PropertySetError::UnknownProperty(string_from_chars(chars.as_slice()))),
        Some(d) => {
            if d.scope != scope {
                Err(PropertySetError::InvalidPropertyScope(string_from_chars(chars.as_slice()), d.scope))
            } else if !accepts(d.value_type, kind) {
                let n = str_chars(d.name);
                Err(
                    PropertySetError::TypeMismatch {
                        property: string_from_chars(n.as_slice()),
                        expected: d.value_type,
                        actual: describe_value_type(kind),
                    },
                )
            } else {
                Ok(d)
            }
        },
    }
}

/// The properties given explicitly for one node, edge or the simulation, by
/// name, with their values.
pub struct UnresolvedProperties<W> {
    values: Vec<(String, W)>,
}

impl<W> UnresolvedProperties<W> {
    /// The values, by property name.
    pub closed spec fn value_map(&self) -> Map<Seq<char>, W> {
        assoc_map(self.values@)
    }

    /// Each property is given at most once.
    pub closed spec fn wf(&self) -> bool {
        distinct_keys(self.values@)
    }

    /// No property given.
    pub fn new() -> (s: Self)
        ensures
            s.wf(),
            s.value_map() == Map::<Seq<char>, W>::empty(),
    {
        UnresolvedProperties { values: Vec::new() }
    }

    /// Give a property a value of the given kind: an error, and nothing
    /// changed, when the kind does not suit the property's type; otherwise the
    /// value replaces any earlier one.
    pub fn insert(&mut self, def: &PropertyDef, value: W, kind: &ValueKind) -> (r: Result<(), PropertySetError>)
        requires
            old(self).wf(),
        ensures
            final(self).wf(),
            type_accepts(def.value_type, *kind) ==> r is Ok && final(self).value_map() == old(self).value_map().insert(
                def.name@,
                value,
            ),
            !type_accepts(def.value_type, *kind) ==> final(self).value_map() == old(self).value_map(),
            !type_accepts(def.value_type, *kind) ==> (r matches Err(PropertySetError::TypeMismatch { property, expected, actual })
                && property@ == def.name@ && expected == def.value_type && actual@ == describe(*kind)),
    {
        let n = str_chars(def.name);
        if !accepts(def.value_type, kind) {
            return Err(
                PropertySetError::TypeMismatch {
                    property: string_from_chars(n.as_slice()),
                    expected: def.value_type,
                    actual: describe_value_type(kind),
                },
            );
        }
        let key = string_from_chars(n.as_slice());
        match find_key(&self.values, &key) {
            Some(i) => {
                proof {
                    lemma_assoc_update(self.values@, i as int, (key, value));
                }
                self.values.set(i, (key, value));
            },
            None => {
                proof {
                    lemma_assoc_push(self.values@, (key, value));
                    lemma_distinct_push(self.values@, (key, value));
                }
                self.values.push((key, value));
            },
        }
        Ok(())
    }

    /// The given properties as a list of name and value, each name once.
    pub fn into_list(self) -> (v: Vec<(String, W)>)
        requires
            self.wf(),
        ensures
            distinct_keys(v@),
            assoc_map(v@) == self.value_map(),
    {
        self.values
    }
}

impl<W> UnresolvedProperties<W> {
    /// The value given for the property named `name` (its full name), if any.
    pub fn get(&self, name: &str) -> (r: Option<&W>)
        requires
            self.wf(),
        ensures
            match r {
                Some(w) => self.value_map().dom().contains(name@) && *w == self.value_map()[name@],
                None => !self.value_map().dom().contains(name@),
            },
    {
        let chars = str_chars(name);
        let key = string_from_chars(chars.as_slice());
        match find_key(&self.values, &key) {
            Some(i) => {
                proof {
                    lemma_assoc_index(self.values@, i as int);
                }
                Some(&self.values[i].1)
            },
            None => None,
        }
    }
}

impl<W: Copy> UnresolvedProperties<W> {
    /// Merge another set into this one: the other's values take precedence.
    pub fn merge(&mut self, other: &UnresolvedProperties<W>)
        requires
            old(self).wf(),
            other.wf(),
        ensures
            final(self).wf(),
            final(self).value_map() == old(self).value_map().union_prefer_right(other.value_map()),
    {
        let mut i: usize = 0;
        let ghost start = self.value_map();
        while i < other.values.len()
            invariant
                i <= other.values@.len(),
                self.wf(),
                start == old(self).value_map(),
                distinct_keys(other.values@),
                self.value_map() == start.union_prefer_right(assoc_map(other.values@.take(i as int))),
            decreases other.values@.len() - i,
        {
            let key = other.values[i].0.clone();
            let value = other.values[i].1;
            match find_key(&self.values, &key) {
                Some(j) => {
                    proof {
                        lemma_assoc_update(self.values@, j as int, (key, value));
                    }
                    self.values.set(j, (key, value));
                },
                None => {
                    proof {
                        lemma_assoc_push(self.values@, (key, value));
                        lemma_distinct_push(self.values@, (key, value));
                    }
                    self.values.push((key, value));
                },
            }
            proof {
                assert(other.values@.take(i + 1).drop_last() =~= other.values@.take(i as int));
                assert(self.value_map() =~= start.union_prefer_right(assoc_map(other.values@.take(i + 1))));
            }
            i = i + 1;
        }
        proof {
            assert(other.values@.take(other.values@.len() as int) =~= other.values@);
        }
    }

    /// Apply these properties to a resolved set: their values replace those
    /// of the same names.
    pub fn apply_to(&self, resolved: &mut ResolvedProperties<W>)
        requires
            self.wf(),
            old(resolved).wf(),
        ensures
            final(resolved).wf(),
            final(resolved).scope_of() == old(resolved).scope_of(),
            final(resolved).given() == old(resolved).given().union_prefer_right(self.value_map()),
    {
        resolved.apply_unresolved(self);
    }
}

impl<W> UnresolvedProperties<W> {
    /// Whether a value was given for the property.
    pub fn contains(&self, def: &PropertyDef) -> (b: bool)
        requires
            self.wf(),
        ensures
            b == self.value_map().dom().contains(def.name@),
    {
        match self.get(def.name) {
            Some(_) => true,
            None => false,
        }
    }

    /// The value given for the property, if any.
    pub fn get_raw(&self, def: &PropertyDef) -> (r: Option<&W>)
        requires
            self.wf(),
        ensures
            match r {
                Some(w) => self.value_map().dom().contains(def.name@) && *w == self.value_map()[def.name@],
                None => !self.value_map().dom().contains(def.name@),
            },
    {
        self.get(def.name)
    }

    /// The given properties as a list of name and value, each name once.
    pub fn values(&self) -> (v: &Vec<(String, W)>)
        requires
            self.wf(),
        ensures
            distinct_keys(v@),
            assoc_map(v@) == self.value_map(),
    {
        &self.values
    }
}

/// A property's value in a resolved set: given explicitly, or its built-in
/// default.
#[derive(Debug, Clone, Copy, PartialEq)]
pub enum Resolved<W> {
    /// Given in the model.
    Given(W),
    /// The built-in default.
    Default(DefaultValue),
}

/// The properties of one scope: every registered property of the scope, with
/// its built-in default unless a value was given.
pub struct ResolvedProperties<W> {
    scope: PropertyScope,
    given: UnresolvedProperties<W>,
}

impl<W: Copy> ResolvedProperties<W> {
    /// The scope of the set.
    pub closed spec fn scope_of(&self) -> PropertyScope {
        self.scope
    }

    /// The values given, by property name.
    pub closed spec fn given(&self) -> Map<Seq<char>, W> {
        self.given.value_map()
    }

    /// Well-formed: each property given once.
    pub closed spec fn wf(&self) -> bool {
        self.given.wf()
    }

    /// Every property of the scope at its built-in default.
    pub fn new(scope: PropertyScope) -> (s: Self)
        ensures
            s.wf(),
            s.scope_of() == scope,
            s.given() == Map::<Seq<char>, W>::empty(),
    {
        ResolvedProperties { scope, given: UnresolvedProperties::new() }
    }

    /// Give a property of the set's scope a value of the given kind: an
    /// error, and nothing changed, for a property of another scope or a
    /// value that does not suit its type.
    pub fn set(&mut self, def: &PropertyDef, value: W, kind: &ValueKind) -> (r: Result<(), PropertySetError>)
        requires
            old(self).wf(),
        ensures
            final(self).wf(),
            final(self).scope_of() == old(self).scope_of(),
            def.scope == old(self).scope_of() && type_accepts(def.value_type, *kind) ==> r is Ok
                && final(self).given() == old(self).given().insert(def.name@, value),
            def.scope != old(self).scope_of() ==> final(self).given() == old(self).given() && (r matches Err(
                PropertySetError::InvalidPropertyScope(n, s),
            ) && n@ == def.name@ && s == def.scope),
            def.scope == old(self).scope_of() && !type_accepts(def.value_type, *kind) ==> final(self).given()
                == old(self).given() && r is Err,
    {
        if def.scope != self.scope {
            let n = str_chars(def.name);
            return Err(PropertySetError::InvalidPropertyScope(string_from_chars(n.as_slice()), def.scope));
        }
        self.given.insert(def, value, kind)
    }

    /// Apply explicitly given properties: their values replace those of the
    /// same names.
    pub fn apply_unresolved(&mut self, other: &UnresolvedProperties<W>)
        requires
            old(self).wf(),
            other.wf(),
        ensures
            final(self).wf(),
            final(self).scope_of() == old(self).scope_of(),
            final(self).given() == old(self).given().union_prefer_right(other.value_map()),
    {
        self.given.merge(other);
    }

    /// The scope of the set.
    pub fn scope(&self) -> (s: PropertyScope)
        ensures
            s == self.scope_of(),
    {
        self.scope
    }

    /// Merge another set of the same scope into this one. The other set
    /// holds every property of the scope, given or at its default, so it
    /// takes precedence for all of them: the set takes the other's values.
    pub fn merge(&mut self, other: &ResolvedProperties<W>)
        requires
            old(self).wf(),
            other.wf(),
            other.scope_of() == old(self).scope_of(),
        ensures
            final(self).wf(),
            final(self).scope_of() == old(self).scope_of(),
            final(self).given() == other.given(),
    {
        let mut given: UnresolvedProperties<W> = UnresolvedProperties::new();
        given.merge(&other.given);
        assert(given.value_map() =~= other.given());
        self.given = given;
    }

    /// The value of a property of the set's scope: the value given for it,
    /// else its built-in default.
    pub fn get_raw(&self, def: &PropertyDef) -> (r: Resolved<W>)
        requires
            self.wf(),
            def.scope == self.scope_of(),
        ensures
            r == if self.given().dom().contains(def.name@) {
                Resolved::Given(self.given()[def.name@])
            } else {
                Resolved::<W>::Default(def.default)
            },
    {
        match self.given.get(def.name) {
            Some(w) => Resolved::Given(*w),
            None => Resolved::Default(def.default),
        }
    }

    /// The value of the property that answers to `name`: the value given for
    /// it, else its built-in default; `None` when no property of the set's
    /// scope answers to `name`.
    pub fn get(&self, name: &str) -> (r: Option<Resolved<W>>)
        requires
            self.wf(),
        ensures
            !property_names().contains(name@) ==> r is None,
            property_names().contains(name@) ==> exists|i: int|
                {
                    &&& first_match(name@, i)
                    &&& {
                        let d = property_table()[i];
                        if d.scope != self.scope_of() {
                            r is None
                        } else if self.given().dom().contains(d.name@) {
                            r == Some(Resolved::Given(self.given()[d.name@]))
                        } else {
                            r == Some(Resolved::<W>::Default(d.default))
                        }
                    }
                },
    {
        match get_property_def(name) {
            None => None,
            Some(d) => {
                if d.scope != self.scope {
                    None
                } else {
                    match self.given.get(d.name) {
                        Some(w) => Some(Resolved::Given(*w)),
                        None => Some(Resolved::Default(d.default)),
                    }
                }
            },
        }
    }
}

} // verus!
