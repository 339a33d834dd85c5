//! Character-level helpers shared by the formatting and parsing code.
use vstd::prelude::*;
use vstd::utf8::{decode_utf8, encode_utf8, encode_utf8_decode_utf8, is_char_boundary};

verus! {

/// The characters of a string slice, in order.
pub fn str_chars(s: &str) -> (v: Vec<char>)
    ensures
        v@ == s@,
{
    let mut v: Vec<char> = Vec::new();
    for c in it: s.chars()
        invariant
            v@ == it.seq().take(it.index() as int),
    {
        v.push(c);
    }
    v
}

/// Appends one character to a string (`String::push`).
#[verifier::external_body]
pub(crate) fn string_push(s: &mut String, c: char)
    ensures
        final(s)@ == old(s)@.push(c),
{
    s.push(c);
}

/// Append the characters of a string slice.
pub fn push_str(out: &mut String, s: &str)
    ensures
        final(out)@ == old(out)@ + s@,
{
    let chars = str_chars(s);
    let mut i: usize = 0;
    while i < chars.len()
        invariant
            i <= chars@.len(),
            chars@ == s@,
            out@ == old(out)@ + chars@.take(i as int),
        decreases chars@.len() - i,
    {
        string_push(out, chars[i]);
        assert(chars@.take(i + 1) =~= chars@.take(i as int).push(chars@[i as int]));
        i = i + 1;
    }
    assert(chars@.take(chars@.len() as int) =~= chars@);
}

/// A string holding exactly the given characters.
pub fn string_from_chars(chars: &[char]) -> (s: String)
    ensures
        s@ == chars@,
{
    let mut s = String::new();
    let mut i: usize = 0;
    while i < chars.len()
        invariant
            i <= chars@.len(),
            s@ == chars@.take(i as int),
        decreases chars@.len() - i,
    {
        string_push(&mut s, chars[i]);
        assert(chars@.take(i as int).push(chars@[i as int]) =~= chars@.take(i + 1));
        i = i + 1;
    }
    assert(chars@.take(chars@.len() as int) =~= chars@);
    s
}

/// Upper-case hexadecimal digit of a value below 16.
pub open spec fn hex_digit_upper(n: nat) -> char {
    seq!['0', '1', '2', '3', '4', '5', '6', '7', '8', '9', 'A', 'B', 'C', 'D', 'E', 'F'][n as int]
}

/// Lower-case hexadecimal digit of a value below 16.
pub open spec fn hex_digit_lower(n: nat) -> char {
    seq!['0', '1', '2', '3', '4', '5', '6', '7', '8', '9', 'a', 'b', 'c', 'd', 'e', 'f'][n as int]
}

/// The low `width` hexadecimal digits of `v`, most significant first, upper case.
pub open spec fn hex_upper(v: nat, width: nat) -> Seq<char>
    decreases width,
{
    if width == 0 {
        Seq::empty()
    } else {
        hex_upper(v / 16, (width - 1) as nat).push(hex_digit_upper(v % 16))
    }
}

/// The low `width` hexadecimal digits of `v`, most significant first, lower case.
pub open spec fn hex_lower(v: nat, width: nat) -> Seq<char>
    decreases width,
{
    if width == 0 {
        Seq::empty()
    } else {
        hex_lower(v / 16, (width - 1) as nat).push(hex_digit_lower(v % 16))
    }
}

pub(crate) fn digit_char(n: u64, upper: bool) -> (c: char)
    requires
        n < 16,
    ensures
        upper ==> c == hex_digit_upper(n as nat),
        !upper ==> c == hex_digit_lower(n as nat),
{
    match n {
        0 => '0',
        1 => '1',
        2 => '2',
        3 => '3',
        4 => '4',
        5 => '5',
        6 => '6',
        7 => '7',
        8 => '8',
        9 => '9',
        10 => if upper { 'A' } else { 'a' },
        11 => if upper { 'B' } else { 'b' },
        12 => if upper { 'C' } else { 'c' },
        13 => if upper { 'D' } else { 'd' },
        14 => if upper { 'E' } else { 'e' },
        _ => if upper { 'F' } else { 'f' },
    }
}

/// Appends the low `width` hexadecimal digits of `v` to `out`.
pub fn push_hex(out: &mut String, v: u64, width: usize, upper: bool)
    ensures
        upper ==> final(out)@ == old(out)@ + hex_upper(v as nat, width as nat),
        !upper ==> final(out)@ == old(out)@ + hex_lower(v as nat, width as nat),
    decreases width,
{
    if width > 0 {
        push_hex(out, v / 16, width - 1, upper);
        let c = digit_char(v % 16, upper);
        string_push(out, c);
        proof {
            let w = width as nat;
            assert(hex_upper(v as nat, w) == hex_upper((v / 16) as nat, (w - 1) as nat).push(
                hex_digit_upper((v % 16) as nat),
            ));
            assert(hex_lower(v as nat, w) == hex_lower((v / 16) as nat, (w - 1) as nat).push(
                hex_digit_lower((v % 16) as nat),
            ));
        }
        assert(upper ==> out@ =~= old(out)@ + hex_upper(v as nat, width as nat));
        assert(!upper ==> out@ =~= old(out)@ + hex_lower(v as nat, width as nat));
    } else {
        assert(out@ =~= old(out)@ + Seq::<char>::empty());
    }
}

/// Sixteen upper-case hexadecimal digits of a 64-bit value, zero padded.
pub fn u64_hex_upper(v: u64) -> (s: String)
    ensures
        s@ == hex_upper(v as nat, 16),
        s@.len() == 16,
{
    let mut s = String::new();
    push_hex(&mut s, v, 16, true);
    assert(s@ =~= hex_upper(v as nat, 16));
    proof {
        lemma_hex_upper_len(v as nat, 16);
    }
    s
}

/// `hex_upper(v, w)` has exactly `w` characters.
pub proof fn lemma_hex_upper_len(v: nat, width: nat)
    ensures
        hex_upper(v, width).len() == width,
    decreases width,
{
    if width > 0 {
        lemma_hex_upper_len(v / 16, (width - 1) as nat);
    }
}

/// Decimal digits of `n`, most significant first, without leading zeros.
pub open spec fn decimal(n: nat) -> Seq<char>
    decreases n,
{
    if n < 10 {
        seq![hex_digit_upper(n)]
    } else {
        decimal(n / 10).push(hex_digit_upper(n % 10))
    }
}

/// Appends the decimal digits of `n` to `out`.
pub fn push_decimal(out: &mut String, n: u64)
    ensures
        final(out)@ == old(out)@ + decimal(n as nat),
    decreases n,
{
    if n < 10 {
        let c = digit_char(n, true);
        string_push(out, c);
        assert(out@ =~= old(out)@ + decimal(n as nat));
    } else {
        push_decimal(out, n / 10);
        let c = digit_char(n % 10, true);
        string_push(out, c);
        assert(decimal(n as nat) == decimal((n / 10) as nat).push(hex_digit_upper((n % 10) as nat)));
        assert(out@ =~= old(out)@ + decimal(n as nat));
    }
}

/// Whether two character sequences are equal.
pub fn chars_eq(a: &[char], b: &[char]) -> (r: bool)
    ensures
        r == (a@ == b@),
{
    if a.len() != b.len() {
        return false;
    }
    let mut i: usize = 0;
    while i < a.len()
        invariant
            a@.len() == b@.len(),
            i <= a@.len(),
            forall|k: int| 0 <= k < i ==> a@[k] == b@[k],
        decreases a@.len() - i,
    {
        if a[i] != b[i] {
            return false;
        }
        i = i + 1;
    }
    assert(a@ =~= b@);
    true
}

/// Whether a character sequence equals a string slice.
pub fn chars_eq_str(a: &[char], b: &str) -> (r: bool)
    ensures
        r == (a@ == b@),
{
    let bv = str_chars(b);
    chars_eq(a, bv.as_slice())
}

/// Unicode white space (the `White_Space` property that `char::is_whitespace`
/// follows): tab, line feed, vertical tab, form feed, carriage return, space,
/// next line, no-break space, ogham space mark, the spaces U+2000-U+200A, line
/// and paragraph separators, narrow no-break space, medium mathematical space
/// and ideographic space.
pub open spec fn is_white_space(c: char) -> bool {
    let n = c as u32;
    (0x09 <= n && n <= 0x0D) || n == 0x20 || n == 0x85 || n == 0xA0 || n == 0x1680 || (0x2000 <= n
        && n <= 0x200A) || n == 0x2028 || n == 0x2029 || n == 0x202F || n == 0x205F || n == 0x3000
}

/// Whether a character is white space.
pub fn char_is_white_space(c: char) -> (b: bool)
    ensures
        b == is_white_space(c),
{
    let n = c as u32;
    (0x09 <= n && n <= 0x0D) || n == 0x20 || n == 0x85 || n == 0xA0 || n == 0x1680 || (0x2000 <= n
        && n <= 0x200A) || n == 0x2028 || n == 0x2029 || n == 0x202F || n == 0x205F || n == 0x3000
}

/// `s` without leading white space.
pub open spec fn trim_start(s: Seq<char>) -> Seq<char>
    decreases s.len(),
{
    if s.len() > 0 && is_white_space(s[0]) {
        trim_start(s.skip(1))
    } else {
        s
    }
}

/// `s` without trailing white space.
pub open spec fn trim_end(s: Seq<char>) -> Seq<char>
    decreases s.len(),
{
    if s.len() > 0 && is_white_space(s.last()) {
        trim_end(s.drop_last())
    } else {
        s
    }
}

/// `s` without leading and trailing white space (`str::trim`).
pub open spec fn trim(s: Seq<char>) -> Seq<char> {
    trim_end(trim_start(s))
}

proof fn lemma_trim_start_skip(s: Seq<char>, i: int)
    requires
        0 <= i <= s.len(),
        forall|k: int| 0 <= k < i ==> is_white_space(#[trigger] s[k]),
    ensures
        trim_start(s) == trim_start(s.skip(i)),
    decreases i,
{
    if i > 0 {
        lemma_trim_start_skip(s, i - 1);
        let t = s.skip(i - 1);
        assert(t[0] == s[i - 1]);
        assert(t.skip(1) =~= s.skip(i));
    } else {
        assert(s.skip(0) =~= s);
    }
}

proof fn lemma_trim_end_take(s: Seq<char>, j: int)
    requires
        0 <= j <= s.len(),
        forall|k: int| j <= k < s.len() ==> is_white_space(#[trigger] s[k]),
    ensures
        trim_end(s) == trim_end(s.take(j)),
    decreases s.len() - j,
{
    if j < s.len() {
        lemma_trim_end_take(s, j + 1);
        let t = s.take(j + 1);
        assert(t.last() == s[j]);
        assert(t.drop_last() =~= s.take(j));
    } else {
        assert(s.take(j) =~= s);
    }
}

/// `s` without leading and trailing white space.
pub fn trim_chars(s: &[char]) -> (t: Vec<char>)
    ensures
        t@ == trim(s@),
{
    let mut i: usize = 0;
    while i < s.len() && char_is_white_space(s[i])
        invariant
            i <= s@.len(),
            forall|k: int| 0 <= k < i ==> is_white_space(#[trigger] s@[k]),
        decreases s@.len() - i,
    {
        i = i + 1;
    }
    proof {
        lemma_trim_start_skip(s@, i as int);
    }
    let ghost u = s@.skip(i as int);
    assert(trim_start(s@) == u) by {
        if u.len() > 0 {
            assert(u[0] == s@[i as int]);
        }
    }
    let mut j: usize = s.len();
    while j > i && char_is_white_space(s[j - 1])
        invariant
            i <= j <= s@.len(),
            u == s@.skip(i as int),
            forall|k: int| j - i <= k < u.len() ==> is_white_space(#[trigger] u[k]),
        decreases j,
    {
        assert(u[j - 1 - i] == s@[j - 1]);
        j = j - 1;
    }
    proof {
        lemma_trim_end_take(u, (j - i) as int);
        let w = u.take((j - i) as int);
        if w.len() > 0 {
            assert(w.last() == s@[j - 1]);
        }
    }
    let mut t: Vec<char> = Vec::new();
    let mut k: usize = i;
    while k < j
        invariant
            i <= k <= j <= s@.len(),
            t@ == s@.subrange(i as int, k as int),
        decreases j - k,
    {
        t.push(s[k]);
        assert(s@.subrange(i as int, k + 1) =~= s@.subrange(i as int, k as int).push(s@[k as int]));
        k = k + 1;
    }
    assert(t@ =~= u.take((j - i) as int));
    t
}

/// The lower case of a character as `char::to_lowercase` gives it, for the
/// characters whose lower case is an ASCII letter: `A`-`Z`, and the Kelvin
/// sign U+212A, whose lower case is `k`. Every other character lower-cases
/// to itself or to text that is not made of ASCII characters alone, so it is
/// left unchanged here: compared with an ASCII name, the result gives the
/// same answer as the full lower case.
pub open spec fn lower_char(c: char) -> char {
    if 'A' <= c && c <= 'Z' {
        ((c as u32) + 32) as char
    } else if c == '\u{212A}' {
        'k'
    } else {
        c
    }
}

/// Lower-casing of a character sequence, character by character.
pub open spec fn lower(s: Seq<char>) -> Seq<char> {
    s.map_values(|c: char| lower_char(c))
}

/// Lower-casing of a character sequence, character by character.
pub fn to_lower(s: &[char]) -> (t: Vec<char>)
    ensures
        t@ == lower(s@),
{
    let mut t: Vec<char> = Vec::new();
    let mut i: usize = 0;
    while i < s.len()
        invariant
            i <= s@.len(),
            t@ == lower(s@.take(i as int)),
        decreases s@.len() - i,
    {
        let c = s[i];
        let l = if 'A' <= c && c <= 'Z' {
            ((c as u8) + 32) as char
        } else if c == '\u{212A}' {
            'k'
        } else {
            c
        };
        assert(lower(s@.take(i + 1)) =~= lower(s@.take(i as int)).push(lower_char(c)));
        t.push(l);
        i = i + 1;
    }
    assert(s@.take(s@.len() as int) =~= s@);
    t
}

/// The pieces of `s` between separator characters `sep`, in order (always at
/// least one piece; `str::split` with a character pattern).
pub open spec fn split_on(s: Seq<char>, sep: char) -> Seq<Seq<char>>
    decreases s.len(),
{
    if s.len() == 0 {
        seq![Seq::<char>::empty()]
    } else {
        let r = split_on(s.drop_last(), sep);
        if s.last() == sep {
            r.push(Seq::<char>::empty())
        } else {
            r.update(r.len() - 1, r.last().push(s.last()))
        }
    }
}

/// `split_on` never yields an empty list of pieces.
pub proof fn lemma_split_on_nonempty(s: Seq<char>, sep: char)
    ensures
        split_on(s, sep).len() >= 1,
    decreases s.len(),
{
    if s.len() > 0 {
        lemma_split_on_nonempty(s.drop_last(), sep);
    }
}

/// `split_on` seen from the front: a leading separator starts an empty
/// first piece; any other leading character joins the first piece of the
/// rest.
pub proof fn lemma_split_on_front(s: Seq<char>, sep: char)
    requires
        s.len() > 0,
    ensures
        split_on(s, sep) == if s[0] == sep {
            seq![Seq::<char>::empty()] + split_on(s.skip(1), sep)
        } else {
            split_on(s.skip(1), sep).update(0, seq![s[0]] + split_on(s.skip(1), sep)[0])
        },
    decreases s.len(),
{
    let t = s.skip(1);
    let l = s.last();
    if s.len() == 1 {
        assert(s.drop_last() =~= Seq::<char>::empty());
        assert(t =~= Seq::<char>::empty());
        if s[0] == sep {
            assert(split_on(s, sep) =~= seq![Seq::<char>::empty()] + split_on(t, sep));
        } else {
            assert(seq![s[0]] + Seq::<char>::empty() =~= Seq::<char>::empty().push(l));
            assert(split_on(s, sep) =~= split_on(t, sep).update(0, seq![s[0]] + split_on(t, sep)[0]));
        }
    } else {
        let q = s.drop_last();
        lemma_split_on_front(q, sep);
        assert(q[0] == s[0]);
        assert(q.skip(1) =~= t.drop_last());
        assert(t.last() == l);
        let r = split_on(q.skip(1), sep);
        lemma_split_on_nonempty(q.skip(1), sep);
        let rt = split_on(t, sep);
        assert(rt == if l == sep {
            r.push(Seq::<char>::empty())
        } else {
            r.update(r.len() - 1, r.last().push(l))
        });
        if s[0] == sep {
            assert(split_on(s, sep) =~= seq![Seq::<char>::empty()] + rt);
        } else {
            let c = seq![s[0]];
            if l != sep && r.len() == 1 {
                assert(c + r[0].push(l) =~= (c + r[0]).push(l));
            }
            assert(split_on(s, sep) =~= rt.update(0, c + rt[0]));
        }
    }
}

/// The pieces of `s` between separator characters `sep`.
pub fn split_chars(s: &[char], sep: char) -> (parts: Vec<Vec<char>>)
    ensures
        parts@.len() == split_on(s@, sep).len(),
        forall|k: int| 0 <= k < parts@.len() ==> (#[trigger] parts@[k])@ == split_on(s@, sep)[k],
{
    let mut parts: Vec<Vec<char>> = Vec::new();
    let mut cur: Vec<char> = Vec::new();
    let mut i: usize = 0;
    assert(s@.take(0) =~= Seq::<char>::empty());
    while i < s.len()
        invariant
            i <= s@.len(),
            parts@.len() + 1 == split_on(s@.take(i as int), sep).len(),
            forall|k: int| 0 <= k < parts@.len() ==> (#[trigger] parts@[k])@ == split_on(s@.take(i as int), sep)[k],
            cur@ == split_on(s@.take(i as int), sep).last(),
        decreases s@.len() - i,
    {
        let c = s[i];
        let ghost prev = split_on(s@.take(i as int), sep);
        assert(s@.take(i + 1).drop_last() =~= s@.take(i as int));
        assert(s@.take(i + 1).last() == c);
        proof {
            lemma_split_on_nonempty(s@.take(i as int), sep);
        }
        if c == sep {
            let done = cur;
            parts.push(done);
            cur = Vec::new();
            assert(cur@ =~= Seq::<char>::empty());
        } else {
            cur.push(c);
        }
        i = i + 1;
    }
    assert(s@.take(s@.len() as int) =~= s@);
    proof {
        lemma_split_on_nonempty(s@, sep);
    }
    parts.push(cur);
    parts
}

/// The first `n` bytes of the UTF-8 encoding of `s`, decoded, followed by
/// three dots.
pub open spec fn cut_with_ellipsis(s: Seq<char>, n: int) -> Seq<char> {
    decode_utf8(encode_utf8(s).subrange(0, n)) + seq!['.', '.', '.']
}

/// The string itself when its UTF-8 encoding is at most `max_len` bytes,
/// otherwise its first `max_len - 3` bytes followed by "...".
pub fn truncate_string(s: &str, max_len: usize) -> (r: String)
    requires
        encode_utf8(s@).len() <= max_len || (max_len >= 3 && is_char_boundary(
            encode_utf8(s@),
            max_len - 3,
        )),
    ensures
        encode_utf8(s@).len() <= max_len ==> r@ == s@,
        encode_utf8(s@).len() > max_len ==> r@ == cut_with_ellipsis(s@, max_len - 3),
{
    let bytes = s.as_bytes();
    if bytes.len() <= max_len {
        return s.to_owned();
    }
    let (head, _tail) = s.split_at(max_len - 3);
    let mut out = head.to_owned();
    proof {
        encode_utf8_decode_utf8(head@);
    }
    string_push(&mut out, '.');
    string_push(&mut out, '.');
    string_push(&mut out, '.');
    assert(out@ =~= cut_with_ellipsis(s@, max_len - 3));
    out
}

/// Control characters (general category Cc): U+0000-U+001F and U+007F-U+009F.
pub open spec fn is_control(c: char) -> bool {
    (c as u32) <= 0x1F || (0x7F <= (c as u32) && (c as u32) <= 0x9F)
}

/// The character of an entity path for `c`: path and pattern characters
/// (`/ \ * ? " < > | :`) and control characters become `_`.
pub open spec fn entity_path_char(c: char) -> char {
    if c == '/' || c == '\\' || c == '*' || c == '?' || c == '"' || c == '<' || c == '>' || c == '|'
        || c == ':' || is_control(c) {
        '_'
    } else {
        c
    }
}

/// Sanitize a name for use in an entity path, replacing characters that
/// would break the path with `_`.
pub fn sanitize_for_entity_path(name: &str) -> (r: String)
    ensures
        r@ == name@.map_values(|c: char| entity_path_char(c)),
{
    let chars = str_chars(name);
    let mut out = String::new();
    let mut i: usize = 0;
    while i < chars.len()
        invariant
            i <= chars@.len(),
            chars@ == name@,
            out@ == name@.take(i as int).map_values(|c: char| entity_path_char(c)),
        decreases chars@.len() - i,
    {
        let c = chars[i];
        let code = c as u32;
        let control = code <= 0x1F || (0x7F <= code && code <= 0x9F);
        let mapped = if c == '/' || c == '\\' || c == '*' || c == '?' || c == '"' || c == '<' || c == '>'
            || c == '|' || c == ':' || control {
            '_'
        } else {
            c
        };
        string_push(&mut out, mapped);
        assert(name@.take(i + 1) =~= name@.take(i as int).push(c));
        assert(out@ =~= name@.take(i + 1).map_values(|c: char| entity_path_char(c)));
        i = i + 1;
    }
    assert(name@.take(name@.len() as int) =~= name@);
    out
}

} // verus!
