//! Simulation statistics, trace payload records and progress text.
use vstd::prelude::*;
use std::collections::HashMap;
use std::time::Duration;
use crate::text::{decimal, push_decimal, string_push};

verus! {

/// Per-node statistics.
#[derive(Debug, Clone, Copy, PartialEq, Eq, Structural)]
pub struct NodeStats {
    /// Packets transmitted by this node.
    pub tx: u64,
    /// Packets received by this node.
    pub rx: u64,
    /// Packets that collided when received by this node.
    pub collisions: u64,
}

impl Default for NodeStats {
    fn default() -> (s: Self)
        ensures
            s.tx == 0 && s.rx == 0 && s.collisions == 0,
    {
        NodeStats { tx: 0, rx: 0, collisions: 0 }
    }
}

/// Statistics collected during simulation.
#[derive(Debug, Clone, Copy, PartialEq, Eq, Structural)]
pub struct SimulationStats {
    /// Total events processed.
    pub total_events: u64,
    /// Packets transmitted.
    pub packets_transmitted: u64,
    /// Packets received.
    pub packets_received: u64,
    /// Packets lost to collisions.
    pub packets_collided: u64,
    /// Messages sent.
    pub messages_sent: u64,
    /// Messages acknowledged.
    pub messages_acked: u64,
    /// Final simulation time.
    pub simulation_time_us: u64,
    /// Wall clock time in milliseconds.
    pub wall_time_ms: u64,
}

impl Default for SimulationStats {
    fn default() -> (s: Self)
        ensures
            s.total_events == 0 && s.packets_transmitted == 0 && s.packets_received == 0
                && s.packets_collided == 0 && s.messages_sent == 0 && s.messages_acked == 0
                && s.simulation_time_us == 0 && s.wall_time_ms == 0,
    {
        SimulationStats {
            total_events: 0,
            packets_transmitted: 0,
            packets_received: 0,
            packets_collided: 0,
            messages_sent: 0,
            messages_acked: 0,
            simulation_time_us: 0,
            wall_time_ms: 0,
        }
    }
}

/// Payload for a timer event.
#[derive(Debug, Clone)]
pub struct TimerPayload {
    /// Timer ID that fired.
    pub timer_id: u64,
}

/// Payload for a message send event.
#[derive(Debug, Clone)]
pub struct MessageSendPayload {
    /// Direction is always "TX" for sent messages.
    pub direction: String,
    /// Destination address.
    pub destination: String,
}

/// Payload for a message received event.
#[derive(Debug, Clone)]
pub struct MessageReceivedPayload {
    /// Direction is always "RX" for received messages.
    pub direction: String,
}

/// The text right-aligned in `width` characters, padded with `fill`.
pub open spec fn pad_left(s: Seq<char>, width: nat, fill: char) -> Seq<char> {
    if s.len() >= width {
        s
    } else {
        Seq::new((width - s.len()) as nat, |_i: int| fill) + s
    }
}

/// A duration of whole seconds as `HHhMMmSSs`: hours right-aligned in two
/// places, minutes and seconds as two digits.
pub open spec fn duration_text(secs: nat) -> Seq<char> {
    pad_left(decimal(secs / 3600), 2, ' ') + seq!['h'] + pad_left(decimal((secs % 3600) / 60), 2, '0')
        + seq!['m'] + pad_left(decimal(secs % 60), 2, '0') + seq!['s']
}

proof fn lemma_decimal_len(n: nat)
    ensures
        decimal(n).len() >= 1,
        (decimal(n).len() == 1) == (n < 10),
    decreases n,
{
    if n >= 10 {
        lemma_decimal_len(n / 10);
    }
}

/// Append `n` in decimal, padded on the left with `fill` to two places.
fn push_padded2(out: &mut String, n: u64, fill: char)
    ensures
        final(out)@ == old(out)@ + pad_left(decimal(n as nat), 2, fill),
{
    proof {
        lemma_decimal_len(n as nat);
    }
    if n < 10 {
        string_push(out, fill);
        assert(Seq::new(1, |_i: int| fill) =~= seq![fill]);
    }
    push_decimal(out, n);
    assert(out@ =~= old(out)@ + pad_left(decimal(n as nat), 2, fill));
}

/// Format a number of whole seconds as `HHhMMmSSs`.
pub fn format_duration_secs(total_secs: u64) -> (r: String)
    ensures
        r@ == duration_text(total_secs as nat),
{
    let hours = total_secs / 3600;
    let minutes = (total_secs % 3600) / 60;
    let seconds = total_secs % 60;
    let mut out = String::new();
    push_padded2(&mut out, hours, ' ');
    string_push(&mut out, 'h');
    push_padded2(&mut out, minutes, '0');
    string_push(&mut out, 'm');
    push_padded2(&mut out, seconds, '0');
    string_push(&mut out, 's');
    assert(out@ =~= duration_text(total_secs as nat));
    out
}

/// The whole seconds of a duration, as `Duration::as_secs` gives them.
pub uninterp spec fn whole_secs(d: Duration) -> u64;

/// Whole seconds of a duration (`Duration::as_secs`). The contract names the
/// result: it depends on the duration alone.
#[verifier::external_body]
fn duration_as_secs(d: &Duration) -> (s: u64)
    ensures
        s == whole_secs(*d),
{
    d.as_secs()
}

/// Format a duration as `HHhMMmSSs` from its whole seconds.
pub fn format_duration(d: Duration) -> (r: String)
    ensures
        r@ == duration_text(whole_secs(d) as nat),
{
    let secs = duration_as_secs(&d);
    format_duration_secs(secs)
}

/// What the statistics read of a simulation event.
#[derive(Debug, Clone)]
pub enum StatsEvent {
    /// A radio started a transmission on the air.
    Transmitted {
        /// The transmitting radio's entity id.
        radio_id: u64,
    },
    /// A reception outcome was delivered to firmware entities.
    Received {
        /// The firmware entity ids the outcome was delivered to.
        targets: Vec<u64>,
        /// Whether the packet was destroyed by a collision.
        collided: bool,
    },
    /// A message was sent.
    MessageSent,
    /// A message was acknowledged.
    MessageAcked,
    /// Any other event.
    Other,
}

/// How many of the targets map to radio `r`.
pub open spec fn hits(targets: Seq<u64>, f2r: Map<u64, u64>, r: u64) -> nat
    decreases targets.len(),
{
    if targets.len() == 0 {
        0
    } else {
        hits(targets.drop_last(), f2r, r) + if f2r.contains_key(targets.last()) && f2r[targets.last()]
            == r {
            1nat
        } else {
            0nat
        }
    }
}

/// Node statistics with `k` more collisions (or `k` more receptions).
pub open spec fn bumped(n: NodeStats, k: nat, collided: bool) -> NodeStats {
    if collided {
        NodeStats { collisions: (n.collisions + k) as u64, ..n }
    } else {
        NodeStats { rx: (n.rx + k) as u64, ..n }
    }
}

/// The simulation statistics after an event.
pub open spec fn next_stats(s: SimulationStats, e: StatsEvent) -> SimulationStats {
    match e {
        StatsEvent::Transmitted { .. } => SimulationStats {
            packets_transmitted: (s.packets_transmitted + 1) as u64,
            ..s
        },
        StatsEvent::Received { collided, .. } => if collided {
            SimulationStats { packets_collided: (s.packets_collided + 1) as u64, ..s }
        } else {
            SimulationStats { packets_received: (s.packets_received + 1) as u64, ..s }
        },
        StatsEvent::MessageSent => SimulationStats { messages_sent: (s.messages_sent + 1) as u64, ..s },
        StatsEvent::MessageAcked => SimulationStats { messages_acked: (s.messages_acked + 1) as u64, ..s },
        StatsEvent::Other => s,
    }
}

/// The per-node statistics after an event, given the firmware-to-radio map.
pub open spec fn next_node_stats(ns: Map<u64, NodeStats>, f2r: Map<u64, u64>, e: StatsEvent) -> Map<
    u64,
    NodeStats,
> {
    match e {
        StatsEvent::Transmitted { radio_id } => if ns.contains_key(radio_id) {
            ns.insert(radio_id, NodeStats { tx: (ns[radio_id].tx + 1) as u64, ..ns[radio_id] })
        } else {
            ns
        },
        StatsEvent::Received { targets, collided } => Map::new(
            |r: u64| ns.contains_key(r),
            |r: u64| bumped(ns[r], hits(targets@, f2r, r), collided),
        ),
        _ => ns,
    }
}

/// No counter overflows on the event.
pub open spec fn stats_fit(s: SimulationStats, ns: Map<u64, NodeStats>, f2r: Map<u64, u64>, e: StatsEvent) -> bool {
    match e {
        StatsEvent::Transmitted { radio_id } => s.packets_transmitted < u64::MAX && (ns.contains_key(
            radio_id,
        ) ==> ns[radio_id].tx < u64::MAX),
        StatsEvent::Received { targets, collided } => (if collided {
            s.packets_collided < u64::MAX
        } else {
            s.packets_received < u64::MAX
        }) && forall|r: u64|
            #[trigger] ns.contains_key(r) ==> (if collided {
                ns[r].collisions
            } else {
                ns[r].rx
            }) + hits(targets@, f2r, r) <= u64::MAX,
        StatsEvent::MessageSent => s.messages_sent < u64::MAX,
        StatsEvent::MessageAcked => s.messages_acked < u64::MAX,
        StatsEvent::Other => true,
    }
}

proof fn lemma_hits_take(targets: Seq<u64>, f2r: Map<u64, u64>, r: u64, i: int)
    requires
        0 <= i < targets.len(),
    ensures
        hits(targets.take(i + 1), f2r, r) == hits(targets.take(i), f2r, r) + if f2r.contains_key(
            targets[i],
        ) && f2r[targets[i]] == r {
            1nat
        } else {
            0nat
        },
        hits(targets.take(i + 1), f2r, r) <= hits(targets, f2r, r),
    decreases targets.len() - i,
{
    assert(targets.take(i + 1).drop_last() =~= targets.take(i));
    assert(targets.take(i + 1).last() == targets[i]);
    if i + 1 < targets.len() {
        lemma_hits_take(targets, f2r, r, i + 1);
    } else {
        assert(targets.take(i + 1) =~= targets);
    }
}

/// Update the statistics for an event: transmissions, receptions (per
/// receiving node, through the firmware-to-radio map, as collisions or
/// good receptions), and messages sent and acknowledged.
pub fn update_stats(
    stats: &mut SimulationStats,
    node_stats: &mut HashMap<u64, NodeStats>,
    firmware_to_radio: &HashMap<u64, u64>,
    event: &StatsEvent,
)
    requires
        stats_fit(*old(stats), old(node_stats)@, firmware_to_radio@, *event),
    ensures
        *final(stats) == next_stats(*old(stats), *event),
        final(node_stats)@ == next_node_stats(old(node_stats)@, firmware_to_radio@, *event),
{
    match event {
        StatsEvent::Transmitted { radio_id } => {
            stats.packets_transmitted = stats.packets_transmitted + 1;
            match node_stats.get(radio_id) {
                Some(n) => {
                    let updated = NodeStats { tx: n.tx + 1, ..*n };
                    node_stats.insert(*radio_id, updated);
                },
                None => {},
            }
        },
        StatsEvent::Received { targets, collided } => {
            let ghost ns0 = node_stats@;
            let ghost f2r = firmware_to_radio@;
            let mut i: usize = 0;
            assert(node_stats@ =~= Map::new(
                |r: u64| ns0.contains_key(r),
                |r: u64| bumped(ns0[r], hits(targets@.take(0), f2r, r), *collided),
            )) by {
                assert forall|r: u64| #[trigger] ns0.contains_key(r) implies bumped(
                    ns0[r],
                    hits(targets@.take(0), f2r, r),
                    *collided,
                ) == ns0[r] by {
                    assert(targets@.take(0).len() == 0);
                }
            }
            while i < targets.len()
                invariant
                    i <= targets@.len(),
                    f2r == firmware_to_radio@,
                    stats_fit(*old(stats), ns0, f2r, *event),
                    *event == (StatsEvent::Received { targets: *targets, collided: *collided }),
                    node_stats@ == Map::new(
                        |r: u64| ns0.contains_key(r),
                        |r: u64| bumped(ns0[r], hits(targets@.take(i as int), f2r, r), *collided),
                    ),
                decreases targets@.len() - i,
            {
                let t = targets[i];
                let ghost before = node_stats@;
                proof {
                    assert forall|r: u64| #[trigger] ns0.contains_key(r) implies hits(targets@.take(i + 1), f2r, r)
                        == hits(targets@.take(i as int), f2r, r) + (if f2r.contains_key(t) && f2r[t] == r {
                        1nat
                    } else {
                        0nat
                    }) && hits(targets@.take(i + 1), f2r, r) <= hits(targets@, f2r, r) by {
                        lemma_hits_take(targets@, f2r, r, i as int);
                    }
                }
                match firmware_to_radio.get(&t) {
                    Some(radio) => {
                        let r = *radio;
                        match node_stats.get(&r) {
                            Some(n) => {
                                let updated = if *collided {
                                    NodeStats { collisions: n.collisions + 1, ..*n }
                                } else {
                                    NodeStats { rx: n.rx + 1, ..*n }
                                };
                                node_stats.insert(r, updated);
                            },
                            None => {},
                        }
                    },
                    None => {},
                }
                assert(node_stats@ =~= Map::new(
                    |r: u64| ns0.contains_key(r),
                    |r: u64| bumped(ns0[r], hits(targets@.take(i + 1), f2r, r), *collided),
                ));
                i = i + 1;
            }
            assert(targets@.take(targets@.len() as int) =~= targets@);
            if *collided {
                stats.packets_collided = stats.packets_collided + 1;
            } else {
                stats.packets_received = stats.packets_received + 1;
            }
        },
        StatsEvent::MessageSent => {
            stats.messages_sent = stats.messages_sent + 1;
        },
        StatsEvent::MessageAcked => {
            stats.messages_acked = stats.messages_acked + 1;
        },
        StatsEvent::Other => {},
    }
}

} // verus!
