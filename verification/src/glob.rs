//! Glob matching where `*` stands for any sequence of characters.
use vstd::prelude::*;
use crate::text::{lemma_split_on_front, lemma_split_on_nonempty, split_on};

verus! {

/// Whether `t` matches the pattern `p`, in which `*` matches any sequence of
/// characters (including none) and every other character matches itself.
pub open spec fn glob(p: Seq<char>, t: Seq<char>) -> bool
    decreases p.len() + t.len(),
{
    if p.len() == 0 {
        t.len() == 0
    } else if p[0] == '*' {
        glob(p.skip(1), t) || (t.len() > 0 && glob(p, t.skip(1)))
    } else {
        t.len() > 0 && p[0] == t[0] && glob(p.skip(1), t.skip(1))
    }
}

proof fn lemma_glob_step(p: Seq<char>, t: Seq<char>, i: int, j: int)
    requires
        0 <= i < p.len(),
        0 <= j <= t.len(),
    ensures
        glob(p.skip(i), t.skip(j)) == if p[i] == '*' {
            glob(p.skip(i + 1), t.skip(j)) || (j < t.len() && glob(p.skip(i), t.skip(j + 1)))
        } else {
            j < t.len() && p[i] == t[j] && glob(p.skip(i + 1), t.skip(j + 1))
        },
{
    let ps = p.skip(i);
    let ts = t.skip(j);
    assert(ps[0] == p[i]);
    assert(ps.skip(1) =~= p.skip(i + 1));
    if j < t.len() {
        assert(ts[0] == t[j]);
        assert(ts.skip(1) =~= t.skip(j + 1));
    }
}

/// Glob matching of a text against a pattern.
pub fn glob_match_chars(pattern: &[char], text: &[char]) -> (r: bool)
    ensures
        r == glob(pattern@, text@),
{
    let m = pattern.len();
    let n = text.len();
    // next[j] == glob(pattern[i+1..], text[j..])
    let mut next: Vec<bool> = Vec::new();
    let mut j: usize = 0;
    while j < n
        invariant
            j <= n,
            n == text@.len(),
            m == pattern@.len(),
            next@.len() == j,
            forall|k: int| 0 <= k < j ==> next@[k] == glob(pattern@.skip(m as int), text@.skip(k)),
        decreases n - j,
    {
        assert(pattern@.skip(m as int).len() == 0);
        next.push(false);
        j = j + 1;
    }
    assert(pattern@.skip(m as int).len() == 0);
    assert(text@.skip(n as int).len() == 0);
    next.push(true);
    let mut i: usize = m;
    while i > 0
        invariant
            i <= m,
            n == text@.len(),
            m == pattern@.len(),
            next@.len() == n + 1,
            forall|k: int| 0 <= k <= n ==> next@[k] == glob(pattern@.skip(i as int), text@.skip(k)),
        decreases i,
    {
        let row = i - 1;
        let mut cur: Vec<bool> = Vec::new();
        let mut k: usize = 0;
        while k < n
            invariant
                k <= n,
                cur@.len() == k,
            decreases n - k,
        {
            cur.push(false);
            k = k + 1;
        }
        cur.push(false);
        proof {
            lemma_glob_step(pattern@, text@, row as int, n as int);
        }
        let vn = if pattern[row] == '*' {
            next[n]
        } else {
            false
        };
        cur.set(n, vn);
        let mut jj: usize = n;
        while jj > 0
            invariant
                jj <= n,
                row < m,
                n == text@.len(),
                m == pattern@.len(),
                cur@.len() == n + 1,
                next@.len() == n + 1,
                forall|k: int| 0 <= k <= n ==> next@[k] == glob(pattern@.skip(row + 1), text@.skip(k)),
                forall|k: int| jj <= k <= n ==> cur@[k] == glob(pattern@.skip(row as int), text@.skip(k)),
            decreases jj,
        {
            let jc = jj - 1;
            proof {
                lemma_glob_step(pattern@, text@, row as int, jc as int);
            }
            let v = if pattern[row] == '*' {
                next[jc] || (jc < n && cur[jc + 1])
            } else {
                jc < n && pattern[row] == text[jc] && next[jc + 1]
            };
            cur.set(jc, v);
            jj = jc;
        }
        next = cur;
        i = row;
    }
    assert(pattern@.skip(0) =~= pattern@);
    assert(text@.skip(0) =~= text@);
    next[0]
}

/// A lone `*` matches every text.
pub proof fn lemma_glob_star_matches_all(t: Seq<char>)
    ensures
        glob(seq!['*'], t),
    decreases t.len(),
{
    let p = seq!['*'];
    assert(p[0] == '*');
    assert(p.skip(1) =~= Seq::<char>::empty());
    if t.len() > 0 {
        lemma_glob_star_matches_all(t.skip(1));
        assert(glob(p, t.skip(1)));
    } else {
        assert(glob(p.skip(1), t));
    }
}

/// A pattern without `*` matches exactly the text equal to it.
pub proof fn lemma_glob_literal(p: Seq<char>, t: Seq<char>)
    requires
        forall|k: int| 0 <= k < p.len() ==> p[k] != '*',
    ensures
        glob(p, t) == (p == t),
    decreases p.len() + t.len(),
{
    if p.len() == 0 {
        if t.len() == 0 {
            assert(p =~= t);
        }
    } else {
        assert forall|k: int| 0 <= k < p.skip(1).len() implies p.skip(1)[k] != '*' by {
            assert(p.skip(1)[k] == p[k + 1]);
        }
        if t.len() > 0 {
            lemma_glob_literal(p.skip(1), t.skip(1));
            if p[0] == t[0] && p.skip(1) == t.skip(1) {
                assert forall|k: int| 0 <= k < p.len() implies p[k] == t[k] by {
                    if k > 0 {
                        assert(p[k] == p.skip(1)[k - 1]);
                        assert(t[k] == t.skip(1)[k - 1]);
                    }
                }
                assert(p =~= t);
            }
            if p == t {
                assert(p.skip(1) =~= t.skip(1));
            }
        }
    }
}

/// `pieces[0] + gaps[0] + pieces[1] + ... + gaps[n-1] + pieces[n]`, for
/// `n + 1` pieces and `n` gaps.
pub open spec fn interleave(pieces: Seq<Seq<char>>, gaps: Seq<Seq<char>>) -> Seq<char>
    decreases gaps.len(),
{
    if gaps.len() == 0 {
        pieces[0]
    } else {
        pieces[0] + gaps[0] + interleave(pieces.skip(1), gaps.skip(1))
    }
}

/// The text is the pattern's pieces between `*`s (`pattern.split('*')`), in
/// order, with some text (possibly empty) in place of each `*`.
pub open spec fn pieces_in_order(p: Seq<char>, t: Seq<char>) -> bool {
    exists|gaps: Seq<Seq<char>>|
        gaps.len() + 1 == split_on(p, '*').len() && #[trigger] interleave(split_on(p, '*'), gaps) == t
}

proof fn lemma_interleave_prepend(pieces: Seq<Seq<char>>, gaps: Seq<Seq<char>>, a: Seq<char>)
    requires
        pieces.len() == gaps.len() + 1,
    ensures
        interleave(pieces.update(0, a + pieces[0]), gaps) == a + interleave(pieces, gaps),
{
    let q = pieces.update(0, a + pieces[0]);
    if gaps.len() > 0 {
        assert(q.skip(1) =~= pieces.skip(1));
        assert(q[0] + gaps[0] + interleave(q.skip(1), gaps.skip(1)) =~= a + (pieces[0] + gaps[0]
            + interleave(pieces.skip(1), gaps.skip(1))));
    }
}

/// A pattern starting with `*` matches a text exactly when the rest of the
/// pattern matches some suffix of it.
proof fn lemma_glob_star_suffix(p: Seq<char>, t: Seq<char>)
    requires
        p.len() > 0,
        p[0] == '*',
    ensures
        glob(p, t) == exists|k: int| 0 <= k <= t.len() && #[trigger] glob(p.skip(1), t.skip(k)),
    decreases t.len(),
{
    let q = p.skip(1);
    assert(t.skip(0) =~= t);
    assert(glob(q, t.skip(0)) == glob(q, t));
    if t.len() > 0 {
        let t1 = t.skip(1);
        lemma_glob_star_suffix(p, t1);
        assert forall|k: int| 0 <= k <= t1.len() implies t1.skip(k) =~= t.skip(k + 1) by {}
        if glob(p, t1) {
            let k = choose|k: int| 0 <= k <= t1.len() && #[trigger] glob(q, t1.skip(k));
            assert(glob(q, t.skip(k + 1)));
        }
        if exists|k: int| 0 <= k <= t.len() && #[trigger] glob(q, t.skip(k)) {
            let k = choose|k: int| 0 <= k <= t.len() && #[trigger] glob(q, t.skip(k));
            if k > 0 {
                assert(glob(q, t1.skip(k - 1)));
            }
        }
    } else {
        if exists|k: int| 0 <= k <= t.len() && #[trigger] glob(q, t.skip(k)) {
            let k = choose|k: int| 0 <= k <= t.len() && #[trigger] glob(q, t.skip(k));
            assert(k == 0);
        }
    }
}

/// A text matches a pattern exactly when it consists of the pattern's pieces
/// between `*`s, in order, each `*` standing for some text, possibly empty.
pub proof fn lemma_glob_pieces_in_order(p: Seq<char>, t: Seq<char>)
    ensures
        glob(p, t) == pieces_in_order(p, t),
    decreases p.len(),
{
    if p.len() == 0 {
        let ps = split_on(p, '*');
        if glob(p, t) {
            assert(interleave(ps, Seq::<Seq<char>>::empty()) =~= t);
        }
        if pieces_in_order(p, t) {
            let gaps = choose|gaps: Seq<Seq<char>>|
                gaps.len() + 1 == ps.len() && #[trigger] interleave(ps, gaps) == t;
            assert(gaps.len() == 0);
        }
    } else {
        let q = p.skip(1);
        let r = split_on(q, '*');
        lemma_split_on_nonempty(q, '*');
        lemma_split_on_front(p, '*');
        if p[0] == '*' {
            let ps = split_on(p, '*');
            assert(ps =~= seq![Seq::<char>::empty()] + r);
            assert(ps.skip(1) =~= r);
            lemma_glob_star_suffix(p, t);
            assert forall|k: int| 0 <= k <= t.len() implies glob(q, t.skip(k)) == pieces_in_order(
                q,
                t.skip(k),
            ) by {
                lemma_glob_pieces_in_order(q, t.skip(k));
            }
            if glob(p, t) {
                let k = choose|k: int| 0 <= k <= t.len() && #[trigger] glob(q, t.skip(k));
                assert(pieces_in_order(q, t.skip(k)));
                let ys = choose|ys: Seq<Seq<char>>|
                    ys.len() + 1 == r.len() && #[trigger] interleave(r, ys) == t.skip(k);
                let gaps = seq![t.take(k)] + ys;
                assert(gaps.skip(1) =~= ys);
                assert(gaps[0] == t.take(k));
                assert(interleave(ps, gaps) =~= t);
            }
            if pieces_in_order(p, t) {
                let gaps = choose|gaps: Seq<Seq<char>>|
                    gaps.len() + 1 == ps.len() && #[trigger] interleave(ps, gaps) == t;
                let x = gaps[0];
                let ys = gaps.skip(1);
                assert(t =~= x + interleave(r, ys));
                let k = x.len() as int;
                assert(t.skip(k) =~= interleave(r, ys));
                assert(pieces_in_order(q, t.skip(k)));
                assert(glob(q, t.skip(k)));
            }
        } else {
            let ps = split_on(p, '*');
            let c = seq![p[0]];
            assert(ps == r.update(0, c + r[0]));
            lemma_glob_pieces_in_order(q, t.skip(1));
            if glob(p, t) {
                let ys = choose|ys: Seq<Seq<char>>|
                    ys.len() + 1 == r.len() && #[trigger] interleave(r, ys) == t.skip(1);
                lemma_interleave_prepend(r, ys, c);
                assert(interleave(ps, ys) =~= t);
            }
            if pieces_in_order(p, t) {
                let gaps = choose|gaps: Seq<Seq<char>>|
                    gaps.len() + 1 == ps.len() && #[trigger] interleave(ps, gaps) == t;
                lemma_interleave_prepend(r, gaps, c);
                assert(t =~= c + interleave(r, gaps));
                assert(t.skip(1) =~= interleave(r, gaps));
                assert(pieces_in_order(q, t.skip(1)));
            }
        }
    }
}

} // verus!
