//! Planning a simulation from its model: which firmware runs on each node,
//! the entity ids, the timers that start the firmware and the agents, each
//! companion's contacts, direct-message targets and channels, and the links
//! between radios.
//!
//! The nodes come in the model's order, by name. What depends on chance
//! (keys, per-node seeds, startup jitter) or on numbers with fractions (link
//! signal levels) is decided before planning and handed in per node.
//!
//! - Firmware starts 10 ms after its node's startup time, a companion's agent
//!   1 s after it, a command-line agent 2 s after it; the start timers get
//!   event ids from 0 in that order: all firmware, then the agents, then the
//!   command-line agents, each group in node order.
//! - A companion's contacts are the nodes its `companion/contacts` names
//!   (skipping itself and unknown names); without that list, the other
//!   companions and then the other nodes, each in name order, up to
//!   `companion/auto_contacts_max`.
//! - Its direct-message targets are the known nodes `agent/direct/targets`
//!   names; without that list, the companions among its contacts.
//! - It sends to the channels `agent/channel/targets` names, or to `Public`
//!   when none is named, and subscribes besides to those of
//!   `companion/channels` it does not send to.
use vstd::prelude::*;
use crate::common::{EntityId, EventId, NodeId};
use crate::firmware::FirmwareType;
use crate::properties::str_lt;
use crate::setup::{
    allocate_entity_ids, firmware_type_from_name, firmware_type_of_name, first_id, ids_from, NodeEntityIds,
    NodeRoles,
};
use crate::sim_time::SimTime;
use crate::text::{lower, push_str};

verus! {

/// What planning reads of a node.
pub struct NodeSetup {
    /// The node's name.
    pub name: String,
    /// Its `firmware/type`.
    pub firmware_type: String,
    /// Its node id (public key).
    pub node_id: NodeId,
    /// When its firmware starts up.
    pub startup_time: SimTime,
    /// Whether a command-line password or commands are configured.
    pub has_cli_config: bool,
    /// Its `companion/contacts`.
    pub contacts: Option<Vec<String>>,
    /// Its `companion/auto_contacts_max`.
    pub auto_contacts_max: u32,
    /// Its `agent/direct/targets`.
    pub direct_targets: Option<Vec<String>>,
    /// Its `agent/channel/targets`.
    pub channel_targets: Vec<String>,
    /// Its `companion/channels`.
    pub companion_channels: Option<Vec<String>>,
}

/// How a contact is added to a companion.
#[derive(Debug, Clone, Copy, PartialEq, Eq, Structural)]
pub enum ContactKind {
    /// A repeater.
    Repeater,
    /// A room server.
    RoomServer,
    /// Another companion.
    Chat,
}

/// A contact of a companion.
pub struct Contact {
    /// The contact's node name.
    pub name: String,
    /// Its node id.
    pub node_id: NodeId,
    /// How it is added.
    pub kind: ContactKind,
}

/// What a companion's agent is set up with.
pub struct AgentPlan {
    /// Its contacts, in order.
    pub contacts: Vec<Contact>,
    /// The nodes it sends direct messages to.
    pub direct_targets: Vec<NodeId>,
    /// The channels it sends to (and subscribes to).
    pub channel_targets: Vec<String>,
    /// The channels it only subscribes to.
    pub subscribe_only: Vec<String>,
}

/// A timer that starts an entity.
#[derive(Debug, Clone, Copy)]
pub struct StartTimer {
    /// The event id.
    pub id: EventId,
    /// When it fires.
    pub time: SimTime,
    /// The entity it starts (and comes from).
    pub entity: EntityId,
}

/// The plan of a simulation.
pub struct SimulationPlan {
    /// Each node's firmware.
    pub firmware: Vec<FirmwareType>,
    /// Each node's entity ids.
    pub ids: Vec<NodeEntityIds>,
    /// The next free entity id.
    pub next_entity_id: u64,
    /// Each node's agent, for companions.
    pub agents: Vec<Option<AgentPlan>>,
    /// The timers that start the firmware and the agents.
    pub start_timers: Vec<StartTimer>,
    /// For each edge, the radios it links, from and to.
    pub links: Vec<(EntityId, EntityId)>,
}

/// Why a simulation cannot be planned.
#[derive(Debug, Clone)]
pub enum SetupError {
    /// A node's `firmware/type` names no firmware.
    UnknownFirmware {
        /// The node.
        node: String,
        /// The firmware type it gives.
        firmware_type: String,
    },
    /// An edge names a node that is not in the model.
    NodeNotFound(String),
}

/// The text of a setup error, as the model error it stands for displays it.
pub open spec fn setup_error_text(e: SetupError) -> Seq<char> {
    match e {
        SetupError::UnknownFirmware { node, firmware_type } => "Invalid configuration: Unknown firmware_type '"@
            + firmware_type@ + "' for node '"@ + node@ + "'"@,
        SetupError::NodeNotFound(n) => "Node not found: "@ + n@,
    }
}

impl SetupError {
    /// The text of the error.
    pub fn message(&self) -> (s: String)
        ensures
            s@ == setup_error_text(*self),
    {
        let mut out = String::new();
        match self {
            SetupError::UnknownFirmware { node, firmware_type } => {
                push_str(&mut out, "Invalid configuration: Unknown firmware_type '");
                push_str(&mut out, firmware_type.as_str());
                push_str(&mut out, "' for node '");
                push_str(&mut out, node.as_str());
                push_str(&mut out, "'");
            },
            SetupError::NodeNotFound(n) => {
                push_str(&mut out, "Node not found: ");
                push_str(&mut out, n.as_str());
            },
        }
        out
    }
}

/// The views of a list of strings.
pub open spec fn names(v: Seq<String>) -> Seq<Seq<char>> {
    v.map_values(|s: String| s@)
}

/// The firmware a node names.
pub open spec fn kind_of(n: NodeSetup) -> Option<FirmwareType> {
    firmware_type_of_name(lower(n.firmware_type@))
}

/// Node `j` has the name `n`.
pub open spec fn named(nodes: Seq<NodeSetup>, n: Seq<char>, j: int) -> bool {
    0 <= j < nodes.len() && nodes[j].name@ == n
}

/// Some node has the name `n`.
pub open spec fn is_node_name(nodes: Seq<NodeSetup>, n: Seq<char>) -> bool {
    exists|j: int| named(nodes, n, j)
}

/// The node of the name `n`.
pub open spec fn name_pos(nodes: Seq<NodeSetup>, n: Seq<char>) -> int {
    choose|j: int| named(nodes, n, j)
}

/// The nodes in strict name order.
pub open spec fn names_sorted(nodes: Seq<NodeSetup>) -> bool {
    forall|a: int, b: int| 0 <= a < b < nodes.len() ==> str_lt(nodes[a].name@, nodes[b].name@)
}

/// How a node is added as a contact.
pub open spec fn contact_kind_of(k: Option<FirmwareType>) -> ContactKind {
    match k {
        Some(FirmwareType::Repeater) => ContactKind::Repeater,
        Some(FirmwareType::RoomServer) => ContactKind::RoomServer,
        _ => ContactKind::Chat,
    }
}

/// The names, among the first `k` nodes, of the nodes other than node `i`
/// that are companions (or, with `companions` false, that are not).
pub open spec fn auto_names(nodes: Seq<NodeSetup>, i: int, companions: bool, k: int) -> Seq<Seq<char>>
    decreases k,
{
    if k <= 0 {
        Seq::empty()
    } else {
        let r = auto_names(nodes, i, companions, k - 1);
        if k - 1 != i && (kind_of(nodes[k - 1]) == Some(FirmwareType::Companion)) == companions {
            r.push(nodes[k - 1].name@)
        } else {
            r
        }
    }
}

/// The contacts of node `i` chosen without a list: the other companions,
/// then the other nodes, up to its maximum.
pub open spec fn auto_contacts(nodes: Seq<NodeSetup>, i: int) -> Seq<Seq<char>> {
    let all = auto_names(nodes, i, true, nodes.len() as int) + auto_names(nodes, i, false, nodes.len() as int);
    if all.len() <= nodes[i].auto_contacts_max {
        all
    } else {
        all.take(nodes[i].auto_contacts_max as int)
    }
}

/// The contact names of node `i`.
pub open spec fn contact_names(nodes: Seq<NodeSetup>, i: int) -> Seq<Seq<char>> {
    match nodes[i].contacts {
        Some(list) => names(list@).filter(|n: Seq<char>| n != nodes[i].name@ && is_node_name(nodes, n)),
        None => auto_contacts(nodes, i),
    }
}

/// The node ids of the known nodes among `ns`, in order.
pub open spec fn ids_of_known(nodes: Seq<NodeSetup>, ns: Seq<Seq<char>>) -> Seq<NodeId>
    decreases ns.len(),
{
    if ns.len() == 0 {
        Seq::empty()
    } else {
        let r = ids_of_known(nodes, ns.drop_last());
        if is_node_name(nodes, ns.last()) {
            r.push(nodes[name_pos(nodes, ns.last())].node_id)
        } else {
            r
        }
    }
}

/// `n` names a companion.
pub open spec fn is_companion_name(nodes: Seq<NodeSetup>, n: Seq<char>) -> bool {
    is_node_name(nodes, n) && kind_of(nodes[name_pos(nodes, n)]) == Some(FirmwareType::Companion)
}

/// The direct-message targets of node `i`.
pub open spec fn direct_targets_of(nodes: Seq<NodeSetup>, i: int) -> Seq<NodeId> {
    match nodes[i].direct_targets {
        Some(list) => ids_of_known(nodes, names(list@)),
        None => ids_of_known(nodes, contact_names(nodes, i).filter(|n: Seq<char>| is_companion_name(nodes, n))),
    }
}

/// The channels node `i` sends to.
pub open spec fn channel_targets_of(n: NodeSetup) -> Seq<Seq<char>> {
    if n.channel_targets@.len() == 0 {
        seq!["Public"@]
    } else {
        names(n.channel_targets@)
    }
}

/// The channels node `i` only subscribes to.
pub open spec fn subscribe_only_of(n: NodeSetup) -> Seq<Seq<char>> {
    let listed = match n.companion_channels {
        Some(list) => names(list@),
        None => Seq::empty(),
    };
    listed.filter(|c: Seq<char>| !names(n.channel_targets@).contains(c))
}

/// The agent plan of node `i` is the one the rules above give.
pub open spec fn agent_plan_ok(nodes: Seq<NodeSetup>, i: int, a: AgentPlan) -> bool {
    let cn = contact_names(nodes, i);
    &&& a.contacts@.len() == cn.len()
    &&& forall|k: int|
        0 <= k < cn.len() ==> {
            let c = #[trigger] a.contacts@[k];
            &&& c.name@ == cn[k]
            &&& c.node_id == nodes[name_pos(nodes, cn[k])].node_id
            &&& c.kind == contact_kind_of(kind_of(nodes[name_pos(nodes, cn[k])]))
        }
    &&& a.direct_targets@ == direct_targets_of(nodes, i)
    &&& names(a.channel_targets@) == channel_targets_of(nodes[i])
    &&& names(a.subscribe_only@) == subscribe_only_of(nodes[i])
}

/// The roles of the nodes, as the entity ids are allocated by.
pub open spec fn roles_of(nodes: Seq<NodeSetup>) -> Seq<NodeRoles> {
    Seq::new(nodes.len(), |k: int| NodeRoles { firmware: kind_of(nodes[k]), has_cli_config: nodes[k].has_cli_config })
}

/// The (time, entity) of the start timers, in order: all firmware, then the
/// agents, then the command-line agents.
pub open spec fn start_slots(nodes: Seq<NodeSetup>, ids: Seq<NodeEntityIds>) -> Seq<(u64, EntityId)> {
    firmware_slots(nodes, ids, nodes.len() as int) + agent_slots(nodes, ids, false, nodes.len() as int)
        + agent_slots(nodes, ids, true, nodes.len() as int)
}

/// The firmware start timers of the first `k` nodes.
pub open spec fn firmware_slots(nodes: Seq<NodeSetup>, ids: Seq<NodeEntityIds>, k: int) -> Seq<(u64, EntityId)>
    decreases k,
{
    if k <= 0 {
        Seq::empty()
    } else {
        firmware_slots(nodes, ids, k - 1).push(((nodes[k - 1].startup_time@ + 10_000) as u64, ids[k - 1].firmware))
    }
}

/// The agent (or, with `cli`, command-line agent) start timers of the first
/// `k` nodes.
pub open spec fn agent_slots(nodes: Seq<NodeSetup>, ids: Seq<NodeEntityIds>, cli: bool, k: int) -> Seq<(u64, EntityId)>
    decreases k,
{
    if k <= 0 {
        Seq::empty()
    } else {
        let r = agent_slots(nodes, ids, cli, k - 1);
        let slot = if cli {
            ids[k - 1].cli_agent
        } else {
            ids[k - 1].agent
        };
        match slot {
            Some(a) => r.push(
                (
                    (nodes[k - 1].startup_time@ + if cli {
                        2_000_000int
                    } else {
                        1_000_000int
                    }) as u64,
                    a,
                ),
            ),
            None => r,
        }
    }
}

/// The links of the first `k` edges: the radios of their nodes, or the
/// first name that names no node.
pub open spec fn links_of(
    nodes: Seq<NodeSetup>,
    ids: Seq<NodeEntityIds>,
    edges: Seq<(String, String)>,
    k: int,
) -> Result<Seq<(EntityId, EntityId)>, Seq<char>>
    decreases k,
{
    if k <= 0 {
        Ok(Seq::empty())
    } else {
        match links_of(nodes, ids, edges, k - 1) {
            Err(n) => Err(n),
            Ok(r) => {
                let (f, t) = (edges[k - 1].0@, edges[k - 1].1@);
                if !is_node_name(nodes, f) {
                    Err(f)
                } else if !is_node_name(nodes, t) {
                    Err(t)
                } else {
                    Ok(r.push((ids[name_pos(nodes, f)].radio, ids[name_pos(nodes, t)].radio)))
                }
            },
        }
    }
}

/// The first node whose firmware type names no firmware.
pub open spec fn first_unknown(nodes: Seq<NodeSetup>, i: int) -> bool {
    &&& 0 <= i < nodes.len()
    &&& kind_of(nodes[i]) is None
    &&& forall|j: int| 0 <= j < i ==> kind_of(#[trigger] nodes[j]) is Some
}

proof fn lemma_name_pos(nodes: Seq<NodeSetup>, n: Seq<char>, j: int)
    requires
        names_sorted(nodes),
        named(nodes, n, j),
    ensures
        is_node_name(nodes, n),
        name_pos(nodes, n) == j,
{
    let p = name_pos(nodes, n);
    assert(named(nodes, n, p));
    if p < j {
        crate::properties::lemma_str_lt_irreflexive(n);
    } else if p > j {
        crate::properties::lemma_str_lt_irreflexive(n);
    }
}

proof fn lemma_names_take(v: Seq<String>, k: int)
    requires
        0 <= k < v.len(),
    ensures
        names(v).take(k + 1).drop_last() == names(v).take(k),
        names(v).take(k + 1).last() == v[k]@,
        names(v.take(k + 1)) == names(v.take(k)).push(v[k]@),
{
    assert(names(v).take(k + 1).drop_last() =~= names(v).take(k));
    assert(names(v.take(k + 1)) =~= names(v.take(k)).push(v[k]@));
}

/// The node of a name, if any.
fn find_node(nodes: &[NodeSetup], n: &String) -> (r: Option<usize>)
    requires
        names_sorted(nodes@),
    ensures
        match r {
            Some(j) => named(nodes@, n@, j as int) && name_pos(nodes@, n@) == j && is_node_name(nodes@, n@),
            None => !is_node_name(nodes@, n@),
        },
{
    let mut j: usize = 0;
    while j < nodes.len()
        invariant
            j <= nodes@.len(),
            names_sorted(nodes@),
            forall|k: int| 0 <= k < j ==> !named(nodes@, n@, k),
        decreases nodes@.len() - j,
    {
        if nodes[j].name == *n {
            proof {
                lemma_name_pos(nodes@, n@, j as int);
            }
            return Some(j);
        }
        j = j + 1;
    }
    None
}

fn clone_strings(v: &Vec<String>) -> (r: Vec<String>)
    ensures
        names(r@) == names(v@),
{
    let mut r: Vec<String> = Vec::new();
    let mut k: usize = 0;
    while k < v.len()
        invariant
            k <= v@.len(),
            names(r@) == names(v@.take(k as int)),
        decreases v@.len() - k,
    {
        proof {
            lemma_names_take(v@, k as int);
        }
        r.push(v[k].clone());
        assert(names(r@) =~= names(v@.take(k as int)).push(v@[k as int]@));
        k = k + 1;
    }
    assert(v@.take(v@.len() as int) =~= v@);
    r
}

/// The node ids of the known nodes among the names, in order.
fn known_ids(nodes: &[NodeSetup], ns: &Vec<String>) -> (r: Vec<NodeId>)
    requires
        names_sorted(nodes@),
    ensures
        r@ == ids_of_known(nodes@, names(ns@)),
{
    let mut r: Vec<NodeId> = Vec::new();
    let mut k: usize = 0;
    while k < ns.len()
        invariant
            k <= ns@.len(),
            names_sorted(nodes@),
            r@ == ids_of_known(nodes@, names(ns@).take(k as int)),
        decreases ns@.len() - k,
    {
        proof {
            lemma_names_take(ns@, k as int);
        }
        match find_node(nodes, &ns[k]) {
            Some(j) => r.push(nodes[j].node_id),
            None => {},
        }
        k = k + 1;
    }
    assert(names(ns@).take(ns@.len() as int) =~= names(ns@));
    r
}

/// The names of the nodes other than node `i` that are companions (or,
/// with `companions` false, that are not), in node order.
fn auto_names_exec(nodes: &[NodeSetup], i: usize, companions: bool) -> (r: Vec<String>)
    ensures
        names(r@) == auto_names(nodes@, i as int, companions, nodes@.len() as int),
{
    let mut r: Vec<String> = Vec::new();
    let mut k: usize = 0;
    while k < nodes.len()
        invariant
            k <= nodes@.len(),
            names(r@) == auto_names(nodes@, i as int, companions, k as int),
        decreases nodes@.len() - k,
    {
        let kind = firmware_type_from_name(nodes[k].firmware_type.as_str());
        let is_companion = match kind {
            Some(FirmwareType::Companion) => true,
            _ => false,
        };
        if k != i && is_companion == companions {
            let ghost before = r@;
            r.push(nodes[k].name.clone());
            assert(names(r@) =~= names(before).push(nodes@[k as int].name@));
        }
        k = k + 1;
    }
    r
}

/// The contact names of node `i`.
fn contact_names_exec(nodes: &[NodeSetup], i: usize) -> (r: Vec<String>)
    requires
        names_sorted(nodes@),
        i < nodes@.len(),
    ensures
        names(r@) == contact_names(nodes@, i as int),
{
    match &nodes[i].contacts {
        Some(list) => {
            let ghost pred = |n: Seq<char>| n != nodes@[i as int].name@ && is_node_name(nodes@, n);
            let mut r: Vec<String> = Vec::new();
            let mut k: usize = 0;
            while k < list.len()
                invariant
                    k <= list@.len(),
                    i < nodes@.len(),
                    names_sorted(nodes@),
                    pred == (|n: Seq<char>| n != nodes@[i as int].name@ && is_node_name(nodes@, n)),
                    names(r@) == names(list@).take(k as int).filter(pred),
                decreases list@.len() - k,
            {
                proof {
                    lemma_names_take(list@, k as int);
                    reveal(Seq::filter);
                }
                let keep = list[k] != nodes[i].name && find_node(nodes, &list[k]).is_some();
                if keep {
                    let ghost before = r@;
                    r.push(list[k].clone());
                    assert(names(r@) =~= names(before).push(list@[k as int]@));
                }
                k = k + 1;
            }
            assert(names(list@).take(list@.len() as int) =~= names(list@));
            r
        },
        None => {
            let mut all = auto_names_exec(nodes, i, true);
            let mut others = auto_names_exec(nodes, i, false);
            let ghost a = all@;
            let ghost o = others@;
            all.append(&mut others);
            assert(names(all@) =~= names(a) + names(o));
            let max = nodes[i].auto_contacts_max as usize;
            if all.len() > max {
                let ghost full = all@;
                all.truncate(max);
                assert(names(all@) =~= names(full).take(max as int));
            }
            all
        },
    }
}

/// The contacts of node `i`, by their names.
fn contacts_exec(nodes: &[NodeSetup], cn: &Vec<String>) -> (r: Vec<Contact>)
    requires
        names_sorted(nodes@),
        forall|k: int| 0 <= k < cn@.len() ==> is_node_name(nodes@, #[trigger] cn@[k]@),
    ensures
        r@.len() == cn@.len(),
        forall|k: int|
            0 <= k < cn@.len() ==> {
                let c = #[trigger] r@[k];
                &&& c.name@ == cn@[k]@
                &&& c.node_id == nodes@[name_pos(nodes@, cn@[k]@)].node_id
                &&& c.kind == contact_kind_of(kind_of(nodes@[name_pos(nodes@, cn@[k]@)]))
            },
{
    let mut r: Vec<Contact> = Vec::new();
    let mut k: usize = 0;
    while k < cn.len()
        invariant
            k <= cn@.len(),
            names_sorted(nodes@),
            forall|q: int| 0 <= q < cn@.len() ==> is_node_name(nodes@, #[trigger] cn@[q]@),
            r@.len() == k,
            forall|q: int|
                0 <= q < k ==> {
                    let c = #[trigger] r@[q];
                    &&& c.name@ == cn@[q]@
                    &&& c.node_id == nodes@[name_pos(nodes@, cn@[q]@)].node_id
                    &&& c.kind == contact_kind_of(kind_of(nodes@[name_pos(nodes@, cn@[q]@)]))
                },
        decreases cn@.len() - k,
    {
        assert(is_node_name(nodes@, cn@[k as int]@));
        match find_node(nodes, &cn[k]) {
            Some(j) => {
                let kind = match firmware_type_from_name(nodes[j].firmware_type.as_str()) {
                    Some(FirmwareType::Repeater) => ContactKind::Repeater,
                    Some(FirmwareType::RoomServer) => ContactKind::RoomServer,
                    _ => ContactKind::Chat,
                };
                r.push(Contact { name: cn[k].clone(), node_id: nodes[j].node_id, kind });
            },
            None => {
                assert(false);
            },
        }
        k = k + 1;
    }
    r
}

/// The agent plan of companion `i`.
pub fn plan_agent(nodes: &[NodeSetup], i: usize) -> (a: AgentPlan)
    requires
        names_sorted(nodes@),
        i < nodes@.len(),
    ensures
        agent_plan_ok(nodes@, i as int, a),
{
    let cn = contact_names_exec(nodes, i);
    proof {
        assert forall|k: int| 0 <= k < cn@.len() implies is_node_name(nodes@, #[trigger] cn@[k]@) by {
            let cs = contact_names(nodes@, i as int);
            assert(names(cn@)[k] == cn@[k]@);
            match nodes@[i as int].contacts {
                Some(list) => {
                    let pred = |n: Seq<char>| n != nodes@[i as int].name@ && is_node_name(nodes@, n);
                    names(list@).filter_lemma(pred);
                    assert(pred(cs[k]));
                },
                None => {
                    lemma_auto_names_known(nodes@, i as int, true, nodes@.len() as int);
                    lemma_auto_names_known(nodes@, i as int, false, nodes@.len() as int);
                    let all = auto_names(nodes@, i as int, true, nodes@.len() as int) + auto_names(
                        nodes@,
                        i as int,
                        false,
                        nodes@.len() as int,
                    );
                    assert(cs == auto_contacts(nodes@, i as int));
                    assert(k < cs.len());
                    assert(cs.len() <= all.len());
                    assert(cs[k] == all[k]);
                    let a = auto_names(nodes@, i as int, true, nodes@.len() as int);
                    if k < a.len() {
                        assert(all[k] == a[k]);
                    } else {
                        assert(all[k] == auto_names(nodes@, i as int, false, nodes@.len() as int)[k - a.len()]);
                    }
                },
            }
        }
    }
    let contacts = contacts_exec(nodes, &cn);
    let direct_targets = match &nodes[i].direct_targets {
        Some(list) => known_ids(nodes, list),
        None => {
            let ghost pred = |n: Seq<char>| is_companion_name(nodes@, n);
            let mut comp: Vec<String> = Vec::new();
            let mut k: usize = 0;
            while k < cn.len()
                invariant
                    k <= cn@.len(),
                    names_sorted(nodes@),
                    pred == (|n: Seq<char>| is_companion_name(nodes@, n)),
                    names(comp@) == names(cn@).take(k as int).filter(pred),
                decreases cn@.len() - k,
            {
                proof {
                    lemma_names_take(cn@, k as int);
                    reveal(Seq::filter);
                }
                let keep = match find_node(nodes, &cn[k]) {
                    Some(j) => match firmware_type_from_name(nodes[j].firmware_type.as_str()) {
                        Some(FirmwareType::Companion) => true,
                        _ => false,
                    },
                    None => false,
                };
                if keep {
                    let ghost before = comp@;
                    comp.push(cn[k].clone());
                    assert(names(comp@) =~= names(before).push(cn@[k as int]@));
                }
                k = k + 1;
            }
            assert(names(cn@).take(cn@.len() as int) =~= names(cn@));
            known_ids(nodes, &comp)
        },
    };
    let channel_targets = if nodes[i].channel_targets.len() == 0 {
        let mut v: Vec<String> = Vec::new();
        let public = crate::text::str_chars("Public");
        v.push(crate::text::string_from_chars(public.as_slice()));
        assert(names(v@) =~= seq!["Public"@]);
        v
    } else {
        clone_strings(&nodes[i].channel_targets)
    };
    let subscribe_only = match &nodes[i].companion_channels {
        Some(list) => {
            let targets = &nodes[i].channel_targets;
            let ghost pred = |c: Seq<char>| !names(targets@).contains(c);
            let mut r: Vec<String> = Vec::new();
            let mut k: usize = 0;
            while k < list.len()
                invariant
                    k <= list@.len(),
                    pred == (|c: Seq<char>| !names(targets@).contains(c)),
                    names(r@) == names(list@).take(k as int).filter(pred),
                decreases list@.len() - k,
            {
                proof {
                    lemma_names_take(list@, k as int);
                    reveal(Seq::filter);
                }
                let mut found = false;
                let mut q: usize = 0;
                while q < targets.len()
                    invariant
                        q <= targets@.len(),
                        k < list@.len(),
                        found == exists|p: int| 0 <= p < q && targets@[p]@ == list@[k as int]@,
                    decreases targets@.len() - q,
                {
                    if targets[q] == list[k] {
                        found = true;
                    }
                    q = q + 1;
                }
                proof {
                    if found {
                        let p = choose|p: int| 0 <= p < q && targets@[p]@ == list@[k as int]@;
                        assert(names(targets@)[p] == list@[k as int]@);
                    }
                    if names(targets@).contains(list@[k as int]@) {
                        let p = choose|p: int| 0 <= p < names(targets@).len() && names(targets@)[p] == list@[k as int]@;
                        assert(targets@[p]@ == list@[k as int]@);
                    }
                }
                if !found {
                    let ghost before = r@;
                    r.push(list[k].clone());
                    assert(names(r@) =~= names(before).push(list@[k as int]@));
                }
                k = k + 1;
            }
            assert(names(list@).take(list@.len() as int) =~= names(list@));
            r
        },
        None => {
            let r: Vec<String> = Vec::new();
            assert(names(r@) =~= Seq::<Seq<char>>::empty().filter(
                |c: Seq<char>| !names(nodes@[i as int].channel_targets@).contains(c),
            )) by {
                reveal(Seq::filter);
            }
            r
        },
    };
    AgentPlan { contacts, direct_targets, channel_targets, subscribe_only }
}

proof fn lemma_auto_names_known(nodes: Seq<NodeSetup>, i: int, companions: bool, k: int)
    requires
        k <= nodes.len(),
    ensures
        forall|q: int|
            0 <= q < auto_names(nodes, i, companions, k).len() ==> is_node_name(
                nodes,
                #[trigger] auto_names(nodes, i, companions, k)[q],
            ),
    decreases k,
{
    if k > 0 {
        lemma_auto_names_known(nodes, i, companions, k - 1);
        let r = auto_names(nodes, i, companions, k - 1);
        assert(named(nodes, nodes[k - 1].name@, k - 1));
        assert forall|q: int|
            0 <= q < auto_names(nodes, i, companions, k).len() implies is_node_name(
            nodes,
            #[trigger] auto_names(nodes, i, companions, k)[q],
        ) by {
            if q < r.len() {
                assert(auto_names(nodes, i, companions, k)[q] == r[q]);
            }
        }
    }
}

/// The firmware of every node, or the first node whose firmware type names
/// none.
fn firmware_kinds(nodes: &[NodeSetup]) -> (r: Result<Vec<FirmwareType>, SetupError>)
    ensures
        (forall|k: int| 0 <= k < nodes@.len() ==> kind_of(#[trigger] nodes@[k]) is Some) ==> (r matches Ok(v) && v@.len()
            == nodes@.len() && forall|k: int| 0 <= k < nodes@.len() ==> Some(#[trigger] v@[k]) == kind_of(nodes@[k])),
        !(forall|k: int| 0 <= k < nodes@.len() ==> kind_of(#[trigger] nodes@[k]) is Some) ==> exists|i: int|
            first_unknown(nodes@, i) && (r matches Err(SetupError::UnknownFirmware { node, firmware_type })
                && node@ == nodes@[i].name@ && firmware_type@ == nodes@[i].firmware_type@),
{
    let mut v: Vec<FirmwareType> = Vec::new();
    let mut k: usize = 0;
    while k < nodes.len()
        invariant
            k <= nodes@.len(),
            v@.len() == k,
            forall|q: int| 0 <= q < k ==> Some(#[trigger] v@[q]) == kind_of(nodes@[q]),
        decreases nodes@.len() - k,
    {
        match firmware_type_from_name(nodes[k].firmware_type.as_str()) {
            Some(t) => v.push(t),
            None => {
                assert(first_unknown(nodes@, k as int)) by {
                    assert forall|j: int| 0 <= j < k implies kind_of(#[trigger] nodes@[j]) is Some by {
                        assert(Some(v@[j]) == kind_of(nodes@[j]));
                    }
                }
                return Err(
                    SetupError::UnknownFirmware {
                        node: nodes[k].name.clone(),
                        firmware_type: nodes[k].firmware_type.clone(),
                    },
                );
            },
        }
        k = k + 1;
    }
    assert forall|q: int| 0 <= q < nodes@.len() implies kind_of(#[trigger] nodes@[q]) is Some by {
        assert(Some(v@[q]) == kind_of(nodes@[q]));
    }
    Ok(v)
}

/// The start timers match their slots, with event ids from 0.
pub open spec fn timers_match(r: Seq<StartTimer>, slots: Seq<(u64, EntityId)>) -> bool {
    &&& r.len() == slots.len()
    &&& forall|k: int|
        0 <= k < r.len() ==> (#[trigger] r[k]).id == EventId(k as u64) && r[k].time@ == slots[k].0 && r[k].entity
            == slots[k].1
}

proof fn lemma_agent_slots_len(nodes: Seq<NodeSetup>, ids: Seq<NodeEntityIds>, cli: bool, k: int)
    ensures
        agent_slots(nodes, ids, cli, k).len() <= if k < 0 {
            0
        } else {
            k
        },
    decreases k,
{
    if k > 0 {
        lemma_agent_slots_len(nodes, ids, cli, k - 1);
    }
}

proof fn lemma_firmware_slots_len(nodes: Seq<NodeSetup>, ids: Seq<NodeEntityIds>, k: int)
    ensures
        firmware_slots(nodes, ids, k).len() == if k < 0 {
            0
        } else {
            k
        },
    decreases k,
{
    if k > 0 {
        lemma_firmware_slots_len(nodes, ids, k - 1);
    }
}

/// Append the timer of one slot.
fn push_timer(r: &mut Vec<StartTimer>, time: u64, entity: EntityId, Ghost(slots): Ghost<Seq<(u64, EntityId)>>)
    requires
        timers_match(old(r)@, slots),
        old(r)@.len() < u64::MAX,
    ensures
        timers_match(final(r)@, slots.push((time, entity))),
{
    let id = r.len() as u64;
    r.push(StartTimer { id: EventId(id), time: SimTime::from_micros(time), entity });
    assert forall|k: int| 0 <= k < r@.len() implies (#[trigger] r@[k]).id == EventId(k as u64) && r@[k].time@
        == slots.push((time, entity))[k].0 && r@[k].entity == slots.push((time, entity))[k].1 by {
        if k < old(r)@.len() {
            assert(r@[k] == old(r)@[k]);
        }
    }
}

/// The timers that start the firmware and the agents.
fn start_timers(nodes: &[NodeSetup], ids: &Vec<NodeEntityIds>) -> (r: Vec<StartTimer>)
    requires
        ids@.len() == nodes@.len(),
        nodes@.len() <= (u64::MAX - 1) / 3,
        forall|k: int| 0 <= k < nodes@.len() ==> (#[trigger] nodes@[k]).startup_time@ + 2_000_000 <= u64::MAX,
    ensures
        timers_match(r@, start_slots(nodes@, ids@)),
{
    let n = nodes.len();
    let mut r: Vec<StartTimer> = Vec::new();
    let mut k: usize = 0;
    while k < n
        invariant
            k <= n,
            n == nodes@.len(),
            ids@.len() == nodes@.len(),
            nodes@.len() <= (u64::MAX - 1) / 3,
            forall|q: int| 0 <= q < nodes@.len() ==> (#[trigger] nodes@[q]).startup_time@ + 2_000_000 <= u64::MAX,
            timers_match(r@, firmware_slots(nodes@, ids@, k as int)),
        decreases n - k,
    {
        proof {
            lemma_firmware_slots_len(nodes@, ids@, k as int);
        }
        let t = nodes[k].startup_time.as_micros() + 10_000;
        push_timer(&mut r, t, ids[k].firmware, Ghost(firmware_slots(nodes@, ids@, k as int)));
        k = k + 1;
    }
    let ghost base = firmware_slots(nodes@, ids@, n as int);
    proof {
        lemma_firmware_slots_len(nodes@, ids@, n as int);
    }
    let mut pass: usize = 0;
    while pass < 2
        invariant
            pass <= 2,
            n == nodes@.len(),
            ids@.len() == nodes@.len(),
            nodes@.len() <= (u64::MAX - 1) / 3,
            forall|q: int| 0 <= q < nodes@.len() ==> (#[trigger] nodes@[q]).startup_time@ + 2_000_000 <= u64::MAX,
            base == firmware_slots(nodes@, ids@, n as int),
            base.len() == n,
            pass == 0 ==> timers_match(r@, base),
            pass == 1 ==> timers_match(r@, base + agent_slots(nodes@, ids@, false, n as int)),
            pass == 2 ==> timers_match(r@, start_slots(nodes@, ids@)),
        decreases 2 - pass,
    {
        let cli = pass == 1;
        let ghost prefix = if cli {
            base + agent_slots(nodes@, ids@, false, n as int)
        } else {
            base
        };
        let delay: u64 = if cli {
            2_000_000
        } else {
            1_000_000
        };
        proof {
            lemma_agent_slots_len(nodes@, ids@, false, n as int);
        }
        let mut k: usize = 0;
        assert(prefix + agent_slots(nodes@, ids@, cli, 0) =~= prefix);
        while k < n
            invariant
                k <= n,
                n == nodes@.len(),
                ids@.len() == nodes@.len(),
                nodes@.len() <= (u64::MAX - 1) / 3,
                forall|q: int| 0 <= q < nodes@.len() ==> (#[trigger] nodes@[q]).startup_time@ + 2_000_000 <= u64::MAX,
                prefix.len() <= 2 * n,
                delay == if cli {
                    2_000_000u64
                } else {
                    1_000_000u64
                },
                timers_match(r@, prefix + agent_slots(nodes@, ids@, cli, k as int)),
            decreases n - k,
        {
            proof {
                lemma_agent_slots_len(nodes@, ids@, cli, k as int);
            }
            let slot = if cli {
                ids[k].cli_agent
            } else {
                ids[k].agent
            };
            match slot {
                Some(a) => {
                    let t = nodes[k].startup_time.as_micros() + delay;
                    let ghost before = prefix + agent_slots(nodes@, ids@, cli, k as int);
                    push_timer(&mut r, t, a, Ghost(before));
                    assert(before.push((t, a)) =~= prefix + agent_slots(nodes@, ids@, cli, k + 1));
                },
                None => {
                    assert(prefix + agent_slots(nodes@, ids@, cli, k as int) =~= prefix + agent_slots(
                        nodes@,
                        ids@,
                        cli,
                        k + 1,
                    ));
                },
            }
            k = k + 1;
        }
        proof {
            if cli {
                assert(prefix + agent_slots(nodes@, ids@, true, n as int) =~= start_slots(nodes@, ids@));
            }
        }
        pass = pass + 1;
    }
    r
}

/// The radios each edge links, or the first name that names no node.
fn plan_links(nodes: &[NodeSetup], ids: &Vec<NodeEntityIds>, edges: &[(String, String)]) -> (r: Result<
    Vec<(EntityId, EntityId)>,
    SetupError,
>)
    requires
        names_sorted(nodes@),
        ids@.len() == nodes@.len(),
    ensures
        match links_of(nodes@, ids@, edges@, edges@.len() as int) {
            Ok(l) => r matches Ok(v) && v@ == l,
            Err(n) => r matches Err(SetupError::NodeNotFound(x)) && x@ == n,
        },
{
    let mut v: Vec<(EntityId, EntityId)> = Vec::new();
    let mut k: usize = 0;
    while k < edges.len()
        invariant
            k <= edges@.len(),
            names_sorted(nodes@),
            ids@.len() == nodes@.len(),
            links_of(nodes@, ids@, edges@, k as int) == Ok::<Seq<(EntityId, EntityId)>, Seq<char>>(v@),
        decreases edges@.len() - k,
    {
        let from = find_node(nodes, &edges[k].0);
        let to = find_node(nodes, &edges[k].1);
        match from {
            None => {
                proof {
                    lemma_links_err_stays(nodes@, ids@, edges@, k as int + 1, edges@.len() as int);
                }
                return Err(SetupError::NodeNotFound(edges[k].0.clone()));
            },
            Some(f) => match to {
                None => {
                    proof {
                        lemma_links_err_stays(nodes@, ids@, edges@, k as int + 1, edges@.len() as int);
                    }
                    return Err(SetupError::NodeNotFound(edges[k].1.clone()));
                },
                Some(t) => {
                    v.push((ids[f].radio, ids[t].radio));
                },
            },
        }
        k = k + 1;
    }
    Ok(v)
}

proof fn lemma_links_err_stays(
    nodes: Seq<NodeSetup>,
    ids: Seq<NodeEntityIds>,
    edges: Seq<(String, String)>,
    k: int,
    m: int,
)
    requires
        0 < k <= m,
        links_of(nodes, ids, edges, k) is Err,
    ensures
        links_of(nodes, ids, edges, m) == links_of(nodes, ids, edges, k),
    decreases m - k,
{
    if k < m {
        lemma_links_err_stays(nodes, ids, edges, k, m - 1);
    }
}

/// The entity ids the nodes get.
pub open spec fn planned_ids(nodes: Seq<NodeSetup>) -> Seq<NodeEntityIds> {
    Seq::new(nodes.len(), |k: int| ids_from(roles_of(nodes)[k], first_id(roles_of(nodes), k)))
}

/// The plan is the one the rules above give for the nodes and edges.
pub open spec fn plan_ok(nodes: Seq<NodeSetup>, edges: Seq<(String, String)>, p: SimulationPlan) -> bool {
    &&& p.firmware@.len() == nodes.len()
    &&& forall|k: int| 0 <= k < nodes.len() ==> Some(#[trigger] p.firmware@[k]) == kind_of(nodes[k])
    &&& p.ids@ == planned_ids(nodes)
    &&& p.next_entity_id == first_id(roles_of(nodes), nodes.len() as int)
    &&& p.agents@.len() == nodes.len()
    &&& forall|k: int|
        0 <= k < nodes.len() ==> match #[trigger] p.agents@[k] {
            Some(a) => kind_of(nodes[k]) == Some(FirmwareType::Companion) && agent_plan_ok(nodes, k, a),
            None => kind_of(nodes[k]) != Some(FirmwareType::Companion),
        }
    &&& timers_match(p.start_timers@, start_slots(nodes, planned_ids(nodes)))
    &&& links_of(nodes, planned_ids(nodes), edges, edges.len() as int) == Ok::<Seq<(EntityId, EntityId)>, Seq<char>>(
        p.links@,
    )
}

/// Plan a simulation: fails on the first node whose firmware type names no
/// firmware, then on the first edge that names a node not in the model;
/// otherwise the plan the rules above give.
pub fn plan_simulation(nodes: &[NodeSetup], edges: &[(String, String)]) -> (r: Result<SimulationPlan, SetupError>)
    requires
        names_sorted(nodes@),
        nodes@.len() <= (u64::MAX - 1) / 3,
        forall|k: int| 0 <= k < nodes@.len() ==> (#[trigger] nodes@[k]).startup_time@ + 2_000_000 <= u64::MAX,
    ensures
        !(forall|k: int| 0 <= k < nodes@.len() ==> kind_of(#[trigger] nodes@[k]) is Some) ==> exists|i: int|
            first_unknown(nodes@, i) && (r matches Err(SetupError::UnknownFirmware { node, firmware_type })
                && node@ == nodes@[i].name@ && firmware_type@ == nodes@[i].firmware_type@),
        (forall|k: int| 0 <= k < nodes@.len() ==> kind_of(#[trigger] nodes@[k]) is Some) ==> match links_of(
            nodes@,
            planned_ids(nodes@),
            edges@,
            edges@.len() as int,
        ) {
            Err(n) => r matches Err(SetupError::NodeNotFound(x)) && x@ == n,
            Ok(_) => r matches Ok(p) && plan_ok(nodes@, edges@, p),
        },
{
    let firmware = match firmware_kinds(nodes) {
        Ok(v) => v,
        Err(e) => {
            return Err(e);
        },
    };
    let mut roles: Vec<NodeRoles> = Vec::new();
    let mut k: usize = 0;
    while k < nodes.len()
        invariant
            k <= nodes@.len(),
            roles@ == roles_of(nodes@).take(k as int),
        decreases nodes@.len() - k,
    {
        let f = firmware_type_from_name(nodes[k].firmware_type.as_str());
        roles.push(NodeRoles { firmware: f, has_cli_config: nodes[k].has_cli_config });
        assert(roles@ =~= roles_of(nodes@).take(k + 1));
        k = k + 1;
    }
    assert(roles@ =~= roles_of(nodes@));
    let (ids, next_entity_id) = allocate_entity_ids(roles.as_slice());
    assert(ids@ =~= planned_ids(nodes@));
    let links = match plan_links(nodes, &ids, edges) {
        Ok(l) => l,
        Err(e) => {
            return Err(e);
        },
    };
    let mut agents: Vec<Option<AgentPlan>> = Vec::new();
    let mut k: usize = 0;
    while k < nodes.len()
        invariant
            k <= nodes@.len(),
            names_sorted(nodes@),
            firmware@.len() == nodes@.len(),
            forall|q: int| 0 <= q < nodes@.len() ==> Some(#[trigger] firmware@[q]) == kind_of(nodes@[q]),
            agents@.len() == k,
            forall|q: int|
                0 <= q < k ==> match #[trigger] agents@[q] {
                    Some(a) => kind_of(nodes@[q]) == Some(FirmwareType::Companion) && agent_plan_ok(nodes@, q, a),
                    None => kind_of(nodes@[q]) != Some(FirmwareType::Companion),
                },
        decreases nodes@.len() - k,
    {
        assert(Some(firmware@[k as int]) == kind_of(nodes@[k as int]));
        let is_companion = match firmware[k] {
            FirmwareType::Companion => true,
            _ => false,
        };
        if is_companion {
            let a = plan_agent(nodes, k);
            agents.push(Some(a));
        } else {
            agents.push(None);
        }
        k = k + 1;
    }
    let start = start_timers(nodes, &ids);
    Ok(SimulationPlan { firmware, ids, next_entity_id, agents, start_timers: start, links })
}

} // verus!
