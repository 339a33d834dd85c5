//! The decisions of building a simulation from a model that depend on no
//! outside state: which firmware a node's `firmware_type` names, and which
//! entity ids each node's radio, firmware and agents get.
//!
//! Entity 0 is the graph that carries transmissions; then, node by node in
//! the model's order, the radio, the firmware, an agent for a companion, and
//! a command-line agent for a repeater or room server that has a command-line
//! password or commands.
use vstd::prelude::*;
use crate::common::EntityId;
use crate::firmware::FirmwareType;
use crate::text::{lower, chars_eq_str, str_chars, to_lower};

verus! {

/// The entity id of the graph.
pub const GRAPH_ENTITY_ID: u64 = 0;

/// The firmware a lower-cased `firmware_type` names: `repeater`,
/// `companion`, `room_server` or `roomserver`; `None` for any other name.
pub open spec fn firmware_type_of_name(s: Seq<char>) -> Option<FirmwareType> {
    if s == "repeater"@ {
        Some(FirmwareType::Repeater)
    } else if s == "companion"@ {
        Some(FirmwareType::Companion)
    } else if s == "room_server"@ || s == "roomserver"@ {
        Some(FirmwareType::RoomServer)
    } else {
        None
    }
}

/// The firmware a node's `firmware_type` names, ignoring case; `None`
/// for an unknown firmware type.
pub fn firmware_type_from_name(name: &str) -> (r: Option<FirmwareType>)
    ensures
        r == firmware_type_of_name(lower(name@)),
{
    let chars = str_chars(name);
    let l = to_lower(chars.as_slice());
    let l = l.as_slice();
    if chars_eq_str(l, "repeater") {
        Some(FirmwareType::Repeater)
    } else if chars_eq_str(l, "companion") {
        Some(FirmwareType::Companion)
    } else if chars_eq_str(l, "room_server") || chars_eq_str(l, "roomserver") {
        Some(FirmwareType::RoomServer)
    } else {
        None
    }
}

/// What the allocation reads of a node: its firmware, and whether it has a
/// command-line password or commands.
#[derive(Debug, Clone, Copy, PartialEq, Eq, Structural)]
pub struct NodeRoles {
    /// The firmware its `firmware_type` names, if any.
    pub firmware: Option<FirmwareType>,
    /// Whether a command-line password or commands are configured.
    pub has_cli_config: bool,
}

/// The entity ids of a node.
#[derive(Debug, Clone, Copy, PartialEq, Eq, Structural)]
pub struct NodeEntityIds {
    /// The radio.
    pub radio: EntityId,
    /// The firmware.
    pub firmware: EntityId,
    /// The agent of a companion.
    pub agent: Option<EntityId>,
    /// The command-line agent of a repeater or room server.
    pub cli_agent: Option<EntityId>,
}

/// A companion gets an agent.
pub open spec fn gets_agent(r: NodeRoles) -> bool {
    r.firmware == Some(FirmwareType::Companion)
}

/// A repeater or room server with a command-line configuration gets a
/// command-line agent.
pub open spec fn gets_cli_agent(r: NodeRoles) -> bool {
    (r.firmware == Some(FirmwareType::Repeater) || r.firmware == Some(FirmwareType::RoomServer))
        && r.has_cli_config
}

/// How many entity ids a node takes.
pub open spec fn ids_taken(r: NodeRoles) -> nat {
    2 + (if gets_agent(r) {
        1nat
    } else {
        0nat
    }) + (if gets_cli_agent(r) {
        1nat
    } else {
        0nat
    })
}

/// The first entity id of node `i`: the graph takes id 0, and each earlier
/// node the ids it needs.
pub open spec fn first_id(nodes: Seq<NodeRoles>, i: int) -> nat
    decreases i,
{
    if i <= 0 {
        1
    } else {
        first_id(nodes, i - 1) + ids_taken(nodes[i - 1])
    }
}

/// The ids of a node whose ids start at `first`: radio, firmware, then its
/// agent or command-line agent, if it gets one.
pub open spec fn ids_from(r: NodeRoles, first: nat) -> NodeEntityIds {
    NodeEntityIds {
        radio: EntityId(first as u64),
        firmware: EntityId((first + 1) as u64),
        agent: if gets_agent(r) {
            Some(EntityId((first + 2) as u64))
        } else {
            None
        },
        cli_agent: if gets_cli_agent(r) {
            Some(EntityId((first + 2) as u64))
        } else {
            None
        },
    }
}

proof fn lemma_first_id_bound(nodes: Seq<NodeRoles>, i: int)
    requires
        0 <= i <= nodes.len(),
    ensures
        1 <= first_id(nodes, i) <= 1 + 3 * i,
    decreases i,
{
    if i > 0 {
        lemma_first_id_bound(nodes, i - 1);
    }
}

/// Allocate the entity ids of the nodes, in order, after the graph's id 0.
/// Returns each node's ids and the next free id.
pub fn allocate_entity_ids(nodes: &[NodeRoles]) -> (r: (Vec<NodeEntityIds>, u64))
    requires
        nodes@.len() <= (u64::MAX - 1) / 3,
    ensures
        r.0@.len() == nodes@.len(),
        forall|i: int| 0 <= i < nodes@.len() ==> #[trigger] r.0@[i] == ids_from(nodes@[i], first_id(nodes@, i)),
        r.1 == first_id(nodes@, nodes@.len() as int),
{
    let mut out: Vec<NodeEntityIds> = Vec::new();
    let mut next: u64 = GRAPH_ENTITY_ID + 1;
    let mut i: usize = 0;
    while i < nodes.len()
        invariant
            i <= nodes@.len(),
            nodes@.len() <= (u64::MAX - 1) / 3,
            out@.len() == i,
            next == first_id(nodes@, i as int),
            forall|k: int| 0 <= k < i ==> #[trigger] out@[k] == ids_from(nodes@[k], first_id(nodes@, k)),
        decreases nodes@.len() - i,
    {
        proof {
            lemma_first_id_bound(nodes@, i as int + 1);
        }
        let r = nodes[i];
        let radio = EntityId(next);
        let firmware = EntityId(next + 1);
        let mut used: u64 = 2;
        let is_companion = match r.firmware {
            Some(FirmwareType::Companion) => true,
            _ => false,
        };
        let has_cli = match r.firmware {
            Some(FirmwareType::Repeater) => r.has_cli_config,
            Some(FirmwareType::RoomServer) => r.has_cli_config,
            _ => false,
        };
        let agent = if is_companion {
            used = 3;
            Some(EntityId(next + 2))
        } else {
            None
        };
        let cli_agent = if has_cli {
            used = 3;
            Some(EntityId(next + 2))
        } else {
            None
        };
        out.push(NodeEntityIds { radio, firmware, agent, cli_agent });
        next = next + used;
        i = i + 1;
    }
    (out, next)
}

} // verus!
