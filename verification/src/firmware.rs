//! Firmware simulation parameters and the firmware library kinds.
use vstd::prelude::*;
use vstd::utf8::encode_utf8;

verus! {

/// Default initial RTC Unix timestamp (Nov 2023).
pub const DEFAULT_INITIAL_RTC_SECS: u64 = 1700000000;

/// Default spin detection threshold.
pub const DEFAULT_SPIN_DETECTION_THRESHOLD: u32 = 3;

/// Default idle loops before yield.
pub const DEFAULT_IDLE_LOOPS_BEFORE_YIELD: u32 = 2;

/// Maximum length of node name.
pub const MAX_NODE_NAME: usize = 32;

/// Size of public key in bytes.
pub const PUB_KEY_SIZE: usize = 32;

/// Size of private key in bytes.
pub const PRV_KEY_SIZE: usize = 64;

/// Maximum radio packet size.
pub const MAX_RADIO_PACKET: usize = 256;

/// Maximum serial TX buffer size.
pub const MAX_SERIAL_TX: usize = 32768;

/// Maximum log output buffer size.
pub const MAX_LOG_OUTPUT: usize = 4096;

/// Configuration parameters for firmware simulation behavior.
#[derive(Debug, Clone, Copy, PartialEq, Eq, Structural)]
pub struct FirmwareSimulationParams {
    /// Poll count before detecting spin/yield.
    pub spin_detection_threshold: u32,
    /// Idle loop count before yield.
    pub idle_loops_before_yield: u32,
    /// Enable debug logging for spin detection.
    pub log_spin_detection: bool,
    /// Enable debug logging for loop iterations.
    pub log_loop_iterations: bool,
    /// Initial RTC Unix timestamp.
    pub initial_rtc_secs: u64,
    /// Startup time in microseconds. Events before this time are dropped.
    pub startup_time_us: u64,
}

impl Default for FirmwareSimulationParams {
    fn default() -> (p: Self)
        ensures
            p.spin_detection_threshold == DEFAULT_SPIN_DETECTION_THRESHOLD,
            p.idle_loops_before_yield == DEFAULT_IDLE_LOOPS_BEFORE_YIELD,
            !p.log_spin_detection,
            !p.log_loop_iterations,
            p.initial_rtc_secs == DEFAULT_INITIAL_RTC_SECS,
            p.startup_time_us == 0,
    {
        FirmwareSimulationParams {
            spin_detection_threshold: DEFAULT_SPIN_DETECTION_THRESHOLD,
            idle_loops_before_yield: DEFAULT_IDLE_LOOPS_BEFORE_YIELD,
            log_spin_detection: false,
            log_loop_iterations: false,
            initial_rtc_secs: DEFAULT_INITIAL_RTC_SECS,
            startup_time_us: 0,
        }
    }
}

/// Yield reasons returned by the firmware (numbered 0-5 in this order, as in
/// the firmware's C interface).
#[derive(Debug, Clone, Copy, PartialEq, Eq, Structural)]
pub enum YieldReason {
    /// Node is idle, waiting for next wake time.
    Idle,
    /// Node started a radio transmission.
    RadioTxStart,
    /// Radio transmission completed.
    RadioTxComplete,
    /// Node requested a reboot.
    Reboot,
    /// Node requested power off.
    PowerOff,
    /// An error occurred.
    Error,
}

/// Available firmware types.
#[derive(Debug, Clone, Copy, PartialEq, Eq, Structural)]
pub enum FirmwareType {
    /// Simple repeater node.
    Repeater,
    /// Room server node.
    RoomServer,
    /// Companion radio node.
    Companion,
}

/// The library file name of a firmware type.
pub open spec fn dll_file_name(t: FirmwareType) -> Seq<char> {
    match t {
        FirmwareType::Repeater => "meshcore_repeater.dll"@,
        FirmwareType::RoomServer => "meshcore_room_server.dll"@,
        FirmwareType::Companion => "meshcore_companion.dll"@,
    }
}

impl FirmwareType {
    /// Get the DLL filename for this firmware type.
    pub fn dll_name(&self) -> (s: &'static str)
        ensures
            s@ == dll_file_name(*self),
    {
        match self {
            FirmwareType::Repeater => "meshcore_repeater.dll",
            FirmwareType::RoomServer => "meshcore_room_server.dll",
            FirmwareType::Companion => "meshcore_companion.dll",
        }
    }
}

/// How many bytes of a name the firmware's name field keeps: one byte of
/// the field is left for the terminating NUL.
pub open spec fn kept_name_len(name: Seq<u8>) -> nat {
    if name.len() < MAX_NODE_NAME - 1 {
        name.len()
    } else {
        (MAX_NODE_NAME - 1) as nat
    }
}

/// The name field after a name is written into it: the name's bytes, cut to
/// leave room for the terminator, then a NUL; the bytes after the NUL are
/// those that were there before.
pub open spec fn written_name(old: Seq<u8>, name: Seq<u8>) -> Seq<u8> {
    let n = kept_name_len(name) as int;
    Seq::new(old.len(), |i: int| if i < n { name[i] } else if i == n { 0u8 } else { old[i] })
}

/// Write a node name into a firmware name field as a NUL-terminated byte
/// string, cutting the name's UTF-8 bytes to fit.
pub fn write_node_name(field: &mut [u8; MAX_NODE_NAME], name: &str)
    ensures
        final(field)@ == written_name(old(field)@, encode_utf8(name@)),
{
    let bytes = name.as_bytes();
    let len: usize = if bytes.len() < MAX_NODE_NAME - 1 { bytes.len() } else { MAX_NODE_NAME - 1 };
    let ghost start = field@;
    let mut i: usize = 0;
    while i < len
        invariant
            len == kept_name_len(encode_utf8(name@)),
            bytes@ == encode_utf8(name@),
            i <= len,
            len < MAX_NODE_NAME,
            field@.len() == MAX_NODE_NAME,
            start.len() == MAX_NODE_NAME,
            forall|j: int| 0 <= j < i ==> field@[j] == bytes@[j],
            forall|j: int| i <= j < MAX_NODE_NAME ==> field@[j] == start[j],
        decreases len - i,
    {
        field[i] = bytes[i];
        i = i + 1;
    }
    field[len] = 0u8;
    assert(field@ =~= written_name(start, encode_utf8(name@)));
}

/// The bytes of a C string held in a buffer: those before the first NUL,
/// or the whole buffer where it holds none.
pub open spec fn c_string_bytes(buf: Seq<u8>) -> Seq<u8>
    decreases buf.len(),
{
    if buf.len() == 0 {
        buf
    } else if buf[0] == 0 {
        Seq::empty()
    } else {
        seq![buf[0]] + c_string_bytes(buf.drop_first())
    }
}

/// The bytes before the first NUL of a buffer (all of them where there is
/// no NUL).
pub fn bytes_before_nul(buf: &[u8]) -> (r: Vec<u8>)
    ensures
        r@ == c_string_bytes(buf@),
{
    let mut r: Vec<u8> = Vec::new();
    let mut i: usize = 0;
    assert(buf@.subrange(0, buf@.len() as int) =~= buf@);
    assert(r@ + c_string_bytes(buf@) =~= c_string_bytes(buf@));
    while i < buf.len()
        invariant_except_break
            i <= buf.len(),
            forall|j: int| 0 <= j < i ==> buf@[j] != 0,
            r@ == buf@.subrange(0, i as int),
            c_string_bytes(buf@) == r@ + c_string_bytes(buf@.subrange(i as int, buf@.len() as int)),
        ensures
            r@ == c_string_bytes(buf@),
        decreases buf.len() - i,
    {
        if buf[i] == 0 {
            break;
        }
        let ghost rest = buf@.subrange(i as int, buf@.len() as int);
        assert(rest.drop_first() =~= buf@.subrange(i + 1, buf@.len() as int));
        r.push(buf[i]);
        i = i + 1;
        assert(r@ =~= buf@.subrange(0, i as int));
        assert(c_string_bytes(rest) == seq![rest[0]] + c_string_bytes(rest.drop_first()));
        assert(r@ + c_string_bytes(buf@.subrange(i as int, buf@.len() as int))
            =~= (r@.drop_last() + seq![rest[0]]) + c_string_bytes(rest.drop_first()));
    }
    r
}

} // verus!
