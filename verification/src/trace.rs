//! What the event trace records: which events, under which origin name, with
//! which reception status, and at which timestamp.
//!
//! Simulation time starts at 2025-01-01T00:00:00Z in the trace.
use vstd::prelude::*;
use crate::common::EntityId;
use crate::text::{decimal, digit_char, hex_digit_upper, push_decimal, string_push};

verus! {

/// The kinds of events, as far as the trace tells them apart.
#[derive(Debug, Clone, Copy, PartialEq, Eq, Structural)]
pub enum TraceKind {
    /// A radio put a packet on the air.
    TransmitAir,
    /// A radio delivered a received packet to its firmware.
    RadioRxPacket,
    /// An agent sent a message.
    MessageSend,
    /// A message was received.
    MessageReceived,
    /// A timer fired.
    Timer,
    /// Any other event.
    Other,
}

/// Every event but those of other kinds is traced.
pub fn is_traced(kind: TraceKind) -> (b: bool)
    ensures
        b == (kind != TraceKind::Other),
{
    match kind {
        TraceKind::Other => false,
        _ => true,
    }
}

/// The entry of `names` for entity `id` that comes first, if any.
pub open spec fn first_name_index(names: Seq<(u64, String)>, id: u64, i: int) -> bool {
    &&& 0 <= i < names.len()
    &&& names[i].0 == id
    &&& forall|j: int| 0 <= j < i ==> names[j].0 != id
}

/// The origin of a traced event: the name of the entity that posted it, or
/// `Entity_<id>` for an entity without a name.
pub fn trace_origin(names: &[(u64, String)], source: EntityId) -> (r: String)
    ensures
        (exists|i: int| 0 <= i < names@.len() && names@[i].0 == source.0) ==> exists|i: int|
            first_name_index(names@, source.0, i) && r@ == names@[i].1@,
        !(exists|i: int| 0 <= i < names@.len() && names@[i].0 == source.0) ==> r@ == "Entity_"@
            + decimal(source.0 as nat),
{
    let mut i: usize = 0;
    while i < names.len()
        invariant
            i <= names@.len(),
            forall|j: int| 0 <= j < i ==> names@[j].0 != source.0,
        decreases names@.len() - i,
    {
        if names[i].0 == source.0 {
            assert(first_name_index(names@, source.0, i as int));
            return names[i].1.clone();
        }
        i = i + 1;
    }
    let mut out = String::new();
    string_push(&mut out, 'E');
    string_push(&mut out, 'n');
    string_push(&mut out, 't');
    string_push(&mut out, 'i');
    string_push(&mut out, 't');
    string_push(&mut out, 'y');
    string_push(&mut out, '_');
    push_decimal(&mut out, source.0);
    proof {
        reveal_strlit("Entity_");
    }
    assert(out@ =~= "Entity_"@ + decimal(source.0 as nat));
    out
}

/// The reception status of a received packet: `collided` when a collision
/// destroyed it, else `weak` when its signal was too weak, else `ok`.
pub fn reception_status(collided: bool, weak: bool) -> (s: &'static str)
    ensures
        s@ == if collided {
            "collided"@
        } else if weak {
            "weak"@
        } else {
            "ok"@
        },
{
    if collided {
        "collided"
    } else if weak {
        "weak"
    } else {
        "ok"
    }
}

/// Two decimal digits of `n` (below 100).
pub open spec fn two_digits(n: nat) -> Seq<char> {
    seq![hex_digit_upper(n / 10), hex_digit_upper(n % 10)]
}

/// Three decimal digits of `n` (below 1000).
pub open spec fn three_digits(n: nat) -> Seq<char> {
    seq![hex_digit_upper(n / 100), hex_digit_upper((n / 10) % 10), hex_digit_upper(n % 10)]
}

/// `v`, or `u32::MAX` where it is larger.
pub open spec fn saturate_u32(v: nat) -> nat {
    if v <= u32::MAX {
        v
    } else {
        u32::MAX as nat
    }
}

/// The trace timestamp of a simulation time in microseconds:
/// `2025-01-01THH:MM:SS.mmmZ`, with whole hours (taken as a `u32`, so
/// saturated) modulo 24, whole minutes modulo 60, and the seconds within the
/// minute rounded to the nearest millisecond.
pub open spec fn timestamp_text(us: nat) -> Seq<char> {
    let hours = saturate_u32(us / 3_600_000_000) % 24;
    let minutes = saturate_u32(us / 60_000_000) % 60;
    let ms = (us % 60_000_000 + 500) / 1000;
    "2025-01-01T"@ + two_digits(hours) + seq![':'] + two_digits(minutes) + seq![':'] + two_digits(
        ms / 1000,
    ) + seq!['.'] + three_digits(ms % 1000) + seq!['Z']
}

fn push_digits(out: &mut String, n: u64, width: u64)
    requires
        width == 2 ==> n < 100,
        width == 3 ==> n < 1000,
        width == 2 || width == 3,
    ensures
        width == 2 ==> final(out)@ == old(out)@ + two_digits(n as nat),
        width == 3 ==> final(out)@ == old(out)@ + three_digits(n as nat),
{
    if width == 3 {
        string_push(out, digit_char(n / 100, true));
    }
    string_push(out, digit_char((n / 10) % 10, true));
    string_push(out, digit_char(n % 10, true));
    if width == 2 {
        assert(n / 10 == (n / 10) % 10);
        assert(out@ =~= old(out)@ + two_digits(n as nat));
    } else {
        assert(out@ =~= old(out)@ + three_digits(n as nat));
    }
}

/// The trace timestamp of a simulation time given in microseconds.
pub fn trace_timestamp(us: u64) -> (s: String)
    ensures
        s@ == timestamp_text(us as nat),
{
    let whole_hours = us / 3_600_000_000;
    let hours32: u64 = if whole_hours <= 0xffff_ffff {
        whole_hours
    } else {
        0xffff_ffff
    };
    let whole_minutes = us / 60_000_000;
    let minutes32: u64 = if whole_minutes <= 0xffff_ffff {
        whole_minutes
    } else {
        0xffff_ffff
    };
    let ms = (us % 60_000_000 + 500) / 1000;
    let mut out = String::new();
    let prefix = "2025-01-01T";
    proof {
        reveal_strlit("2025-01-01T");
    }
    let mut i: usize = 0;
    let pchars = crate::text::str_chars(prefix);
    while i < pchars.len()
        invariant
            i <= pchars@.len(),
            pchars@ == "2025-01-01T"@,
            out@ == pchars@.take(i as int),
        decreases pchars@.len() - i,
    {
        string_push(&mut out, pchars[i]);
        assert(pchars@.take(i as int).push(pchars@[i as int]) =~= pchars@.take(i + 1));
        i = i + 1;
    }
    assert(pchars@.take(pchars@.len() as int) =~= pchars@);
    push_digits(&mut out, hours32 % 24, 2);
    string_push(&mut out, ':');
    push_digits(&mut out, minutes32 % 60, 2);
    string_push(&mut out, ':');
    push_digits(&mut out, ms / 1000, 2);
    string_push(&mut out, '.');
    push_digits(&mut out, ms % 1000, 3);
    string_push(&mut out, 'Z');
    assert(out@ =~= timestamp_text(us as nat));
    out
}

} // verus!
