//! The grammar of duration arguments such as `90`, `10m` or `1d2h30m45s`:
//! numbers, each followed by a unit (`s`, `m`, `h`, `d`), the last one
//! possibly without a unit (seconds).
//!
//! The scanner splits a duration into its terms and finds where it stops
//! being well formed; the numbers themselves are decimal fractions, read
//! and added up by the caller.
use vstd::prelude::*;
use crate::text::{str_chars, string_push};

verus! {

/// Whether a character belongs to a number of a duration.
pub open spec fn is_number_char(c: char) -> bool {
    ('0' <= c && c <= '9') || c == '.'
}

/// The seconds in one of a duration unit, or `None` for a character that is
/// no unit.
pub open spec fn unit_seconds(c: char) -> Option<u64> {
    if c == 's' {
        Some(1u64)
    } else if c == 'm' {
        Some(60u64)
    } else if c == 'h' {
        Some(3600u64)
    } else if c == 'd' {
        Some(86400u64)
    } else {
        None
    }
}

/// The state of a left-to-right scan after the characters `s`: the terms
/// completed so far (number text and seconds per unit), the number text
/// being read, and, where the scan stopped, the number text and the
/// character it stopped at.
pub open spec fn duration_scan(s: Seq<char>) -> (
    Seq<(Seq<char>, u64)>,
    Seq<char>,
    Option<(Seq<char>, char)>,
)
    decreases s.len(),
{
    if s.len() == 0 {
        (Seq::empty(), Seq::empty(), None)
    } else {
        let prev = duration_scan(s.drop_last());
        let c = s.last();
        if prev.2 is Some {
            prev
        } else if is_number_char(c) {
            (prev.0, prev.1.push(c), None)
        } else if prev.1.len() == 0 || unit_seconds(c) is None {
            (prev.0, prev.1, Some((prev.1, c)))
        } else {
            (prev.0.push((prev.1, unit_seconds(c).unwrap())), Seq::empty(), None)
        }
    }
}

/// The terms of a duration: those the scan completed, then, where it did
/// not stop, a trailing number as seconds.
pub open spec fn duration_terms_of(s: Seq<char>) -> Seq<(Seq<char>, u64)> {
    let st = duration_scan(s);
    if st.2 is None && st.1.len() > 0 {
        st.0.push((st.1, 1u64))
    } else {
        st.0
    }
}

/// One term of a duration: a number and the seconds in one of its unit.
#[derive(Debug, Clone)]
pub struct DurationTerm {
    /// The number as written.
    pub number: String,
    /// Seconds per unit: 1, 60, 3600 or 86400.
    pub seconds_per_unit: u64,
}

/// Where a duration stops being well formed.
#[derive(Debug, Clone)]
pub enum DurationStop {
    /// A character that is neither part of a number nor follows one.
    UnexpectedChar(char),
    /// A character after a number that is no unit.
    UnknownUnit {
        /// The number before it.
        number: String,
        /// The character.
        unit: char,
    },
}

/// A duration split into terms, with where it stopped being well formed.
#[derive(Debug, Clone)]
pub struct DurationTerms {
    /// The terms before the stop (all of them where there is none).
    pub terms: Vec<DurationTerm>,
    /// Where the duration stops being well formed, if it does.
    pub stop: Option<DurationStop>,
}

/// The number texts and units of terms.
pub open spec fn terms_view(ts: Seq<DurationTerm>) -> Seq<(Seq<char>, u64)> {
    Seq::new(ts.len(), |k: int| (ts[k].number@, ts[k].seconds_per_unit))
}

/// The number text and character of a stop.
pub open spec fn stop_view(st: Option<DurationStop>) -> Option<(Seq<char>, char)> {
    match st {
        None => None,
        Some(DurationStop::UnexpectedChar(c)) => Some((Seq::empty(), c)),
        Some(DurationStop::UnknownUnit { number, unit }) => Some((number@, unit)),
    }
}

/// Split a duration into its terms, stopping at the first character that is
/// neither part of a number nor a unit after one.
pub fn duration_terms(s: &str) -> (r: DurationTerms)
    ensures
        terms_view(r.terms@) == duration_terms_of(s@),
        stop_view(r.stop) == duration_scan(s@).2,
        r.stop matches Some(DurationStop::UnknownUnit { number, unit }) ==> number@.len() > 0,
{
    let chars = str_chars(s);
    let mut terms: Vec<DurationTerm> = Vec::new();
    let mut current = String::new();
    let mut current_len: usize = 0;
    let mut i: usize = 0;
    while i < chars.len()
        invariant
            chars@ == s@,
            i <= chars@.len(),
            current_len == current@.len(),
            current_len <= i,
            duration_scan(s@.take(i as int)) == (terms_view(terms@), current@, None::<(Seq<char>, char)>),
        decreases chars.len() - i,
    {
        let c = chars[i];
        let ghost prev = s@.take(i as int);
        assert(s@.take(i + 1).drop_last() =~= prev);
        if ('0' <= c && c <= '9') || c == '.' {
            string_push(&mut current, c);
            current_len = current_len + 1;
            i = i + 1;
        } else {
            let unit: Option<u64> = if c == 's' {
                Some(1u64)
            } else if c == 'm' {
                Some(60u64)
            } else if c == 'h' {
                Some(3600u64)
            } else if c == 'd' {
                Some(86400u64)
            } else {
                None
            };
            assert(unit == unit_seconds(c));
            if current_len == 0 {
                proof {
                    lemma_scan_stopped(s@, i as int);
                    assert(current@ =~= Seq::<char>::empty());
                }
                return DurationTerms { terms, stop: Some(DurationStop::UnexpectedChar(c)) };
            }
            match unit {
                None => {
                    proof {
                        lemma_scan_stopped(s@, i as int);
                    }
                    return DurationTerms {
                        terms,
                        stop: Some(DurationStop::UnknownUnit { number: current, unit: c }),
                    };
                },
                Some(secs) => {
                    let ghost before = terms@;
                    terms.push(DurationTerm { number: current, seconds_per_unit: secs });
                    assert(terms_view(terms@) =~= terms_view(before).push((current@, secs)));
                    current = String::new();
                    current_len = 0;
                    i = i + 1;
                },
            }
        }
    }
    assert(s@.take(chars@.len() as int) =~= s@);
    if current_len > 0 {
        let ghost before = terms@;
        terms.push(DurationTerm { number: current, seconds_per_unit: 1 });
        assert(terms_view(terms@) =~= terms_view(before).push((current@, 1u64)));
    }
    DurationTerms { terms, stop: None }
}

/// Once the scan stops, it stays stopped: the state after all characters is
/// the state after the character it stopped at.
proof fn lemma_scan_stopped(s: Seq<char>, i: int)
    requires
        0 <= i < s.len(),
        duration_scan(s.take(i)).2 is None,
        !is_number_char(s[i]),
        duration_scan(s.take(i)).1.len() == 0 || unit_seconds(s[i]) is None,
    ensures
        duration_scan(s) == duration_scan(s.take(i + 1)),
        duration_scan(s).2 == Some((duration_scan(s.take(i)).1, s[i])),
        duration_scan(s).0 == duration_scan(s.take(i)).0,
    decreases s.len() - i,
{
    assert(s.take(i + 1).drop_last() =~= s.take(i));
    lemma_scan_stays(s, i + 1);
}

/// A stopped scan stays as it is whatever characters follow.
proof fn lemma_scan_stays(s: Seq<char>, n: int)
    requires
        0 < n <= s.len(),
        duration_scan(s.take(n)).2 is Some,
    ensures
        duration_scan(s) == duration_scan(s.take(n)),
    decreases s.len() - n,
{
    if n == s.len() {
        assert(s.take(n) =~= s);
    } else {
        assert(s.take(n + 1).drop_last() =~= s.take(n));
        lemma_scan_stays(s, n + 1);
    }
}

/// A well-formed term: a non-empty number of digits and points, and the
/// seconds of one of the four units.
pub open spec fn term_ok(t: (Seq<char>, u64)) -> bool {
    &&& t.0.len() > 0
    &&& forall|k: int| 0 <= k < t.0.len() ==> is_number_char(#[trigger] t.0[k])
    &&& (t.1 == 1 || t.1 == 60 || t.1 == 3600 || t.1 == 86400)
}

proof fn lemma_scan_ok(s: Seq<char>)
    ensures
        forall|k: int| 0 <= k < duration_scan(s).0.len() ==> term_ok(#[trigger] duration_scan(s).0[k]),
        forall|k: int| 0 <= k < duration_scan(s).1.len() ==> is_number_char(#[trigger] duration_scan(s).1[k]),
    decreases s.len(),
{
    if s.len() > 0 {
        lemma_scan_ok(s.drop_last());
        let prev = duration_scan(s.drop_last());
        let c = s.last();
        if prev.2 is None && !is_number_char(c) && prev.1.len() > 0 && unit_seconds(c) is Some {
            let t = (prev.1, unit_seconds(c).unwrap());
            assert(term_ok(t));
            assert(duration_scan(s).0 =~= prev.0.push(t));
        }
    }
}

/// Every term of a duration is well formed: a non-empty number of digits
/// and points, with the seconds of one of the units `s`, `m`, `h`, `d`.
pub proof fn lemma_duration_terms_well_formed(s: Seq<char>)
    ensures
        forall|k: int| 0 <= k < duration_terms_of(s).len() ==> term_ok(#[trigger] duration_terms_of(s)[k]),
{
    lemma_scan_ok(s);
    let st = duration_scan(s);
    if st.2 is None && st.1.len() > 0 {
        assert(term_ok((st.1, 1u64)));
    }
}

} // verus!
