//! LoRa PHY rules: default MeshCore radio parameters, time on air, and
//! collision detection between overlapping transmissions.
use vstd::prelude::*;
use crate::common::{EntityId, RadioParams};
use crate::sim_time::SimTime;

verus! {

/// Default number of preamble symbols.
pub const DEFAULT_PREAMBLE_SYMBOLS: u32 = 8;

/// The default MeshCore radio parameters: 910.525 MHz, 62.5 kHz, SF7, CR 4/5, 20 dBm.
pub open spec fn meshcore_defaults() -> RadioParams {
    RadioParams {
        frequency_hz: 910_525_000,
        bandwidth_hz: 62_500,
        spreading_factor: 7,
        coding_rate: 5,
        tx_power_dbm: 20,
    }
}

/// Create default MeshCore radio parameters.
pub fn default_radio_params() -> (p: RadioParams)
    ensures
        p == meshcore_defaults(),
{
    RadioParams {
        frequency_hz: 910_525_000,
        bandwidth_hz: 62_500,
        spreading_factor: 7,
        coding_rate: 5,
        tx_power_dbm: 20,
    }
}

/// `2` to the power `n`.
pub open spec fn pow2(n: nat) -> nat
    decreases n,
{
    if n == 0 {
        1
    } else {
        2 * pow2((n - 1) as nat)
    }
}

/// Number of payload symbol blocks: `ceil(max(0, 8*len - 4*sf + 28) / (4*sf))`.
pub open spec fn payload_blocks(payload_len: nat, sf: nat) -> nat {
    let n: int = 8 * payload_len + 28 - 4 * sf;
    let d: int = (4 * sf) as int;
    if n <= 0 {
        0
    } else {
        ((n + d - 1) / d) as nat
    }
}

/// Four times the symbol count of a packet: the preamble symbols plus 4.25
/// sync symbols, plus 8 header symbols and `cr` symbols per payload block.
pub open spec fn quarter_symbols(payload_len: nat, sf: nat, cr: nat, preamble: nat) -> nat {
    4 * preamble + 17 + 4 * (8 + payload_blocks(payload_len, sf) * cr)
}

/// Exact time on air in microseconds, rounded down: symbol count times the
/// symbol time `2^sf / bandwidth` seconds.
pub open spec fn time_on_air_us(payload_len: nat, sf: nat, bw: nat, cr: nat, preamble: nat) -> nat {
    quarter_symbols(payload_len, sf, cr, preamble) * pow2(sf) * 250_000 / bw
}

/// The simulation time of a time on air: saturated at the largest time.
pub open spec fn saturate_u64(v: nat) -> u64 {
    if v <= u64::MAX {
        v as u64
    } else {
        u64::MAX
    }
}

/// The time on air, in microseconds, of a packet with a payload of
/// `payload_len` bytes and `preamble` preamble symbols. With spreading factor
/// 0 the payload takes unboundedly many blocks, so the time saturates, except
/// with coding rate 0, where the product of the two is undefined and the
/// time is 0. With bandwidth 0 the symbol time is unbounded and the time
/// saturates.
pub open spec fn airtime_us(payload_len: nat, params: RadioParams, preamble: nat) -> u64 {
    let sf = params.spreading_factor as nat;
    let bw = params.bandwidth_hz as nat;
    let cr = params.coding_rate as nat;
    if sf == 0 {
        if cr == 0 {
            0
        } else {
            u64::MAX
        }
    } else if bw == 0 {
        u64::MAX
    } else {
        saturate_u64(time_on_air_us(payload_len, sf, bw, cr, preamble))
    }
}

proof fn lemma_pow2_monotonic(a: nat, b: nat)
    requires
        a <= b,
    ensures
        pow2(a) <= pow2(b),
    decreases b - a,
{
    if a < b {
        lemma_pow2_monotonic(a, (b - 1) as nat);
    }
}

/// `2^n`, or `None` where it does not fit in a `u128`.
fn checked_pow2(n: u8) -> (r: Option<u128>)
    ensures
        match r {
            Some(p) => p == pow2(n as nat),
            None => pow2(n as nat) > u128::MAX,
        },
{
    let mut p: u128 = 1;
    let mut i: u8 = 0;
    while i < n
        invariant
            i <= n,
            p == pow2(i as nat),
        decreases n - i,
    {
        if p > u128::MAX / 2 {
            proof {
                lemma_pow2_monotonic((i + 1) as nat, n as nat);
            }
            return None;
        }
        p = 2 * p;
        i = i + 1;
    }
    Some(p)
}

/// Which of the six per-spreading-factor SNR thresholds (SF7 to SF12, in
/// that order) applies to a spreading factor: its own for SF7-SF12, that of
/// SF8 for any other value.
pub open spec fn snr_threshold_slot(spreading_factor: u8) -> usize {
    if 7 <= spreading_factor <= 12 {
        (spreading_factor - 7) as usize
    } else {
        1
    }
}

/// The position of a spreading factor's SNR sensitivity threshold among the
/// thresholds for SF7 to SF12.
pub fn snr_threshold_index(spreading_factor: u8) -> (i: usize)
    ensures
        i == snr_threshold_slot(spreading_factor),
        i < 6,
{
    if 7 <= spreading_factor && spreading_factor <= 12 {
        (spreading_factor - 7) as usize
    } else {
        1
    }
}

/// Calculate the time on air of a LoRa packet with the default preamble
/// (8 symbols), from spreading factor, bandwidth and coding rate.
pub fn calculate_time_on_air(params: &RadioParams, payload_len: usize) -> (t: SimTime)
    ensures
        t@ == airtime_us(payload_len as nat, *params, DEFAULT_PREAMBLE_SYMBOLS as nat),
{
    calculate_time_on_air_with_config(params, payload_len, DEFAULT_PREAMBLE_SYMBOLS)
}

/// A quotient of a value beyond `u128` by a bandwidth that fits in `u32`
/// lies beyond `u64`.
proof fn lemma_quotient_saturates(v: nat, bw: nat)
    requires
        v > u128::MAX,
        0 < bw <= u32::MAX,
    ensures
        v / bw > u64::MAX,
{
    let d = v / bw;
    vstd::arithmetic::div_mod::lemma_fundamental_div_mod(v as int, bw as int);
    vstd::arithmetic::div_mod::lemma_mod_pos_bound(v as int, bw as int);
    if d <= u64::MAX {
        assert(bw * d <= u32::MAX * u64::MAX) by (nonlinear_arith)
            requires
                bw <= u32::MAX,
                d <= u64::MAX,
        ;
    }
}

/// Calculate the time on air of a LoRa packet with a configured number of
/// preamble symbols: the preamble plus 4.25 sync symbols, 8 header symbols
/// and `cr` symbols per payload block, each symbol lasting `2^sf / bw`
/// seconds; rounded down to whole microseconds.
pub fn calculate_time_on_air_with_config(params: &RadioParams, payload_len: usize, preamble_symbols: u32) -> (t: SimTime)
    ensures
        t@ == airtime_us(payload_len as nat, *params, preamble_symbols as nat),
{
    if params.spreading_factor == 0 {
        if params.coding_rate == 0 {
            return SimTime::from_micros(0);
        }
        return SimTime::from_micros(u64::MAX);
    }
    if params.bandwidth_hz == 0 {
        return SimTime::from_micros(u64::MAX);
    }
    let sf = params.spreading_factor as u128;
    let bw = params.bandwidth_hz as u128;
    let cr = params.coding_rate as u128;
    let pl = payload_len as u128;
    let preamble = preamble_symbols as u128;
    let n: u128 = 8 * pl + 28;
    let blocks: u128 = if n <= 4 * sf {
        0
    } else {
        let m = n - 4 * sf;
        (m + 4 * sf - 1) / (4 * sf)
    };
    assert(blocks == payload_blocks(payload_len as nat, sf as nat));
    assert(blocks <= 8 * 0x1_0000_0000_0000_0000 + 28) by {
        lemma_blocks_bound(pl as nat, sf as nat);
    }
    assert(blocks * cr <= (8 * 0x1_0000_0000_0000_0000 + 28) * 256) by (nonlinear_arith)
        requires
            blocks <= 8 * 0x1_0000_0000_0000_0000 + 28,
            cr < 256,
    ;
    let q: u128 = 4 * preamble + 17 + 4 * (8 + blocks * cr);
    assert(q == quarter_symbols(payload_len as nat, sf as nat, cr as nat, preamble as nat));
    let ghost exact: nat = q as nat * pow2(sf as nat) * 250_000;
    assert(time_on_air_us(payload_len as nat, sf as nat, bw as nat, cr as nat, preamble as nat) == exact
        / (bw as nat));
    let scaled: Option<u128> = match checked_pow2(params.spreading_factor) {
        None => {
            assert(exact >= pow2(sf as nat)) by (nonlinear_arith)
                requires
                    exact == q as nat * pow2(sf as nat) * 250_000,
                    q >= 1,
            ;
            None
        },
        Some(p) => match q.checked_mul(p) {
            None => {
                assert(exact >= q * p) by (nonlinear_arith)
                    requires
                        exact == q as nat * p * 250_000,
                ;
                None
            },
            Some(qp) => qp.checked_mul(250_000),
        },
    };
    match scaled {
        Some(x) => {
            let total = x / bw;
            if total <= u64::MAX as u128 {
                SimTime::from_micros(total as u64)
            } else {
                SimTime::from_micros(u64::MAX)
            }
        },
        None => {
            proof {
                lemma_quotient_saturates(exact, bw as nat);
            }
            SimTime::from_micros(u64::MAX)
        },
    }
}

proof fn lemma_blocks_bound(pl: nat, sf: nat)
    requires
        pl < 0x1_0000_0000_0000_0000,
        1 <= sf,
    ensures
        payload_blocks(pl, sf) <= 8 * 0x1_0000_0000_0000_0000 + 28,
{
    let n: int = 8 * pl + 28 - 4 * sf;
    let d: int = (4 * sf) as int;
    if n > 0 {
        assert(n + d - 1 <= n * d) by (nonlinear_arith)
            requires
                n > 0,
                d >= 4,
        ;
        vstd::arithmetic::div_mod::lemma_div_is_ordered(n + d - 1, n * d, d);
        vstd::arithmetic::div_mod::lemma_div_by_multiple(n, d);
    }
}

/// A longer payload never takes less time on air.
pub proof fn lemma_time_on_air_monotonic(a: nat, b: nat, sf: nat, bw: nat, cr: nat, preamble: nat)
    requires
        a <= b,
        1 <= sf,
        bw > 0,
    ensures
        time_on_air_us(a, sf, bw, cr, preamble) <= time_on_air_us(b, sf, bw, cr, preamble),
{
    let na: int = 8 * a + 28 - 4 * sf;
    let nb: int = 8 * b + 28 - 4 * sf;
    let d: int = (4 * sf) as int;
    if na > 0 {
        assert((na + d - 1) / d <= (nb + d - 1) / d) by (nonlinear_arith)
            requires
                na <= nb,
                d > 0,
                na > 0,
        ;
    }
    let ka = payload_blocks(a, sf);
    let kb = payload_blocks(b, sf);
    assert(ka <= kb);
    assert(ka * cr <= kb * cr) by (nonlinear_arith)
        requires
            ka <= kb,
    ;
    let qa = quarter_symbols(a, sf, cr, preamble);
    let qb = quarter_symbols(b, sf, cr, preamble);
    let p = pow2(sf);
    assert(qa * p * 250_000 / bw <= qb * p * 250_000 / bw) by (nonlinear_arith)
        requires
            qa <= qb,
            bw > 0,
    ;
}

/// For any radio parameters and preamble, a longer payload never takes less
/// time on air.
pub proof fn lemma_airtime_monotonic(a: nat, b: nat, params: RadioParams, preamble: nat)
    requires
        a <= b,
    ensures
        airtime_us(a, params, preamble) <= airtime_us(b, params, preamble),
{
    if params.spreading_factor > 0 && params.bandwidth_hz > 0 {
        lemma_time_on_air_monotonic(
            a,
            b,
            params.spreading_factor as nat,
            params.bandwidth_hz as nat,
            params.coding_rate as nat,
            preamble,
        );
    }
}

/// Extension trait for RadioParams to add LoRa-specific calculations.
pub trait RadioParamsExt {
    /// Create default MeshCore radio parameters.
    fn default_meshcore() -> (p: RadioParams)
        ensures
            p == meshcore_defaults(),
    ;

    /// Calculate time on air for a given payload length.
    fn time_on_air(&self, payload_len: usize) -> (t: SimTime)
        ensures
            t@ == self.spec_time_on_air(payload_len as nat),
    ;

    /// Time on air in microseconds for a payload length.
    spec fn spec_time_on_air(&self, payload_len: nat) -> u64;
}

impl RadioParamsExt for RadioParams {
    fn default_meshcore() -> (p: RadioParams) {
        default_radio_params()
    }

    fn time_on_air(&self, payload_len: usize) -> (t: SimTime) {
        calculate_time_on_air(self, payload_len)
    }

    open spec fn spec_time_on_air(&self, payload_len: nat) -> u64 {
        airtime_us(payload_len, *self, DEFAULT_PREAMBLE_SYMBOLS as nat)
    }
}

// ----------------------------------------------------------------------------
// Collision detection
// ----------------------------------------------------------------------------

/// Context for collision detection.
#[derive(Debug, Clone, Copy)]
pub struct CollisionContext {
    /// Start time of transmission.
    pub start_time: SimTime,
    /// End time of transmission.
    pub end_time: SimTime,
    /// Frequency in Hz.
    pub frequency_hz: u32,
    /// Unique packet ID.
    pub packet_id: u64,
}

/// Result of collision check.
#[derive(Debug, Clone, Copy, PartialEq, Eq, Structural)]
pub enum CollisionResult {
    /// No collision detected.
    NoCollision,
    /// Incoming packet is destroyed.
    Destroyed,
    /// Both packets are destroyed.
    BothDestroyed(u64),
    /// Capture effect: incoming survives, other is destroyed.
    CaptureEffect(u64),
}

/// Two transmissions collide when they use the same frequency and their time
/// intervals overlap (half-open intervals).
pub open spec fn collides(a: CollisionContext, b: CollisionContext) -> bool {
    a.frequency_hz == b.frequency_hz && a.start_time@ < b.end_time@ && a.end_time@ > b.start_time@
}

/// Check an incoming transmission against existing ones: both are destroyed
/// with the first existing transmission it collides with.
pub fn check_collision(incoming: &CollisionContext, existing: &[CollisionContext]) -> (r: CollisionResult)
    ensures
        r == CollisionResult::NoCollision <==> forall|i: int|
            0 <= i < existing@.len() ==> !collides(*incoming, #[trigger] existing@[i]),
        r != CollisionResult::NoCollision ==> exists|i: int|
            0 <= i < existing@.len() && collides(*incoming, #[trigger] existing@[i]) && (forall|j: int|
                0 <= j < i ==> !collides(*incoming, #[trigger] existing@[j])) && r
                == CollisionResult::BothDestroyed(existing@[i].packet_id),
{
    let mut k: usize = 0;
    while k < existing.len()
        invariant
            k <= existing@.len(),
            forall|j: int| 0 <= j < k ==> !collides(*incoming, #[trigger] existing@[j]),
        decreases existing@.len() - k,
    {
        let other = &existing[k];
        if incoming.frequency_hz == other.frequency_hz {
            let overlap = incoming.start_time.as_micros() < other.end_time.as_micros()
                && incoming.end_time.as_micros() > other.start_time.as_micros();
            if overlap {
                assert(collides(*incoming, existing@[k as int]));
                return CollisionResult::BothDestroyed(other.packet_id);
            }
        }
        k = k + 1;
    }
    CollisionResult::NoCollision
}

/// Collision is symmetric: whether two transmissions collide does not depend
/// on which one is the incoming one.
pub proof fn lemma_collides_symmetric(a: CollisionContext, b: CollisionContext)
    ensures
        collides(a, b) == collides(b, a),
{
}

// ----------------------------------------------------------------------------
// Radio configuration
// ----------------------------------------------------------------------------

/// Radio configuration including turnaround times.
#[derive(Debug, Clone, Copy)]
pub struct RadioConfig {
    /// LoRa radio parameters.
    pub params: RadioParams,
    /// Time to switch from RX to TX mode.
    pub rx_to_tx_turnaround: SimTime,
    /// Time to switch from TX to RX mode.
    pub tx_to_rx_turnaround: SimTime,
    /// Entity ID of the Graph entity (for routing transmissions).
    pub graph_entity: EntityId,
}

impl Default for RadioConfig {
    fn default() -> (c: Self)
        ensures
            c.params == meshcore_defaults(),
            c.rx_to_tx_turnaround@ == 100,
            c.tx_to_rx_turnaround@ == 100,
            c.graph_entity == EntityId(0),
    {
        RadioConfig {
            params: default_radio_params(),
            rx_to_tx_turnaround: SimTime::from_micros(100),
            tx_to_rx_turnaround: SimTime::from_micros(100),
            graph_entity: EntityId::new(0),
        }
    }
}

} // verus!
