//! Association lists: a `Vec` of `(String, V)` pairs, or of
//! `((String, String), V)` pairs, with distinct keys, read as a finite map
//! from key text to value.
use vstd::prelude::*;

verus! {

/// No key occurs twice.
pub open spec fn distinct_keys<V>(s: Seq<(String, V)>) -> bool {
    forall|i: int, j: int|
        0 <= i < s.len() && 0 <= j < s.len() && i != j ==> (#[trigger] s[i]).0@ != (#[trigger] s[j]).0@
}

/// The map that an association list describes; for a repeated key the last
/// pair wins.
pub open spec fn assoc_map<V>(s: Seq<(String, V)>) -> Map<Seq<char>, V>
    decreases s.len(),
{
    if s.len() == 0 {
        Map::empty()
    } else {
        assoc_map(s.drop_last()).insert(s.last().0@, s.last().1)
    }
}

/// A key is in the map exactly when some pair carries it.
pub proof fn lemma_assoc_dom<V>(s: Seq<(String, V)>, k: Seq<char>)
    ensures
        assoc_map(s).dom().contains(k) <==> exists|i: int| 0 <= i < s.len() && (#[trigger] s[i]).0@ == k,
    decreases s.len(),
{
    if s.len() > 0 {
        lemma_assoc_dom(s.drop_last(), k);
        if assoc_map(s.drop_last()).dom().contains(k) {
            let i = choose|i: int| 0 <= i < s.drop_last().len() && (#[trigger] s.drop_last()[i]).0@ == k;
            assert(s[i] == s.drop_last()[i]);
        }
        if exists|i: int| 0 <= i < s.len() && (#[trigger] s[i]).0@ == k {
            let i = choose|i: int| 0 <= i < s.len() && (#[trigger] s[i]).0@ == k;
            if i < s.len() - 1 {
                assert(s.drop_last()[i] == s[i]);
            }
        }
    }
}

/// With distinct keys, each pair's key maps to that pair's value.
pub proof fn lemma_assoc_index<V>(s: Seq<(String, V)>, i: int)
    requires
        distinct_keys(s),
        0 <= i < s.len(),
    ensures
        assoc_map(s).dom().contains(s[i].0@),
        assoc_map(s)[s[i].0@] == s[i].1,
    decreases s.len(),
{
    if i < s.len() - 1 {
        let t = s.drop_last();
        assert(t[i] == s[i]);
        assert(distinct_keys(t)) by {
            assert forall|a: int, b: int| 0 <= a < t.len() && 0 <= b < t.len() && a != b implies
                (#[trigger] t[a]).0@ != (#[trigger] t[b]).0@ by {
                assert(t[a] == s[a] && t[b] == s[b]);
            }
        }
        lemma_assoc_index(t, i);
        assert(s[s.len() - 1].0@ != s[i].0@);
    }
}

/// Appending a pair inserts its key and value.
pub proof fn lemma_assoc_push<V>(s: Seq<(String, V)>, e: (String, V))
    ensures
        assoc_map(s.push(e)) == assoc_map(s).insert(e.0@, e.1),
{
    assert(s.push(e).drop_last() =~= s);
}

/// Appending a pair with a new key keeps the keys distinct.
pub proof fn lemma_distinct_push<V>(s: Seq<(String, V)>, e: (String, V))
    requires
        distinct_keys(s),
        !assoc_map(s).dom().contains(e.0@),
    ensures
        distinct_keys(s.push(e)),
{
    lemma_assoc_dom(s, e.0@);
    let t = s.push(e);
    assert forall|a: int, b: int| 0 <= a < t.len() && 0 <= b < t.len() && a != b implies
        (#[trigger] t[a]).0@ != (#[trigger] t[b]).0@ by {
        if a < s.len() && b < s.len() {
            assert(t[a] == s[a] && t[b] == s[b]);
        } else if a < s.len() {
            assert(t[a] == s[a]);
        } else {
            assert(t[b] == s[b]);
        }
    }
}

/// Replacing the value of an existing pair (same key) inserts the new value.
pub proof fn lemma_assoc_update<V>(s: Seq<(String, V)>, i: int, e: (String, V))
    requires
        distinct_keys(s),
        0 <= i < s.len(),
        e.0@ == s[i].0@,
    ensures
        distinct_keys(s.update(i, e)),
        assoc_map(s.update(i, e)) == assoc_map(s).insert(e.0@, e.1),
{
    let t = s.update(i, e);
    assert(distinct_keys(t)) by {
        assert forall|a: int, b: int| 0 <= a < t.len() && 0 <= b < t.len() && a != b implies
            (#[trigger] t[a]).0@ != (#[trigger] t[b]).0@ by {
            assert(t[a].0@ == s[a].0@ && t[b].0@ == s[b].0@);
        }
    }
    let m1 = assoc_map(t);
    let m2 = assoc_map(s).insert(e.0@, e.1);
    assert forall|k: Seq<char>| m1.dom().contains(k) <==> m2.dom().contains(k) by {
        lemma_assoc_dom(t, k);
        lemma_assoc_dom(s, k);
        if exists|j: int| 0 <= j < s.len() && (#[trigger] s[j]).0@ == k {
            let j = choose|j: int| 0 <= j < s.len() && (#[trigger] s[j]).0@ == k;
            assert(t[j].0@ == k);
        }
        if exists|j: int| 0 <= j < t.len() && (#[trigger] t[j]).0@ == k {
            let j = choose|j: int| 0 <= j < t.len() && (#[trigger] t[j]).0@ == k;
            assert(s[j].0@ == k);
        }
    }
    assert forall|k: Seq<char>| #[trigger] m1.dom().contains(k) implies m1[k] == m2[k] by {
        lemma_assoc_dom(t, k);
        let j = choose|j: int| 0 <= j < t.len() && (#[trigger] t[j]).0@ == k;
        lemma_assoc_index(t, j);
        if j != i {
            lemma_assoc_index(s, j);
        }
    }
    assert(m1 =~= m2);
}

/// Removing a pair removes its key, when keys are distinct.
pub proof fn lemma_assoc_remove<V>(s: Seq<(String, V)>, i: int)
    requires
        distinct_keys(s),
        0 <= i < s.len(),
    ensures
        distinct_keys(s.remove(i)),
        assoc_map(s.remove(i)) == assoc_map(s).remove(s[i].0@),
{
    let t = s.remove(i);
    assert forall|a: int| 0 <= a < t.len() implies #[trigger] t[a] == s[if a < i { a } else { a + 1 }] by {}
    assert(distinct_keys(t)) by {
        assert forall|a: int, b: int| 0 <= a < t.len() && 0 <= b < t.len() && a != b implies
            (#[trigger] t[a]).0@ != (#[trigger] t[b]).0@ by {
            let a2 = if a < i { a } else { a + 1 };
            let b2 = if b < i { b } else { b + 1 };
            assert(t[a] == s[a2] && t[b] == s[b2]);
        }
    }
    let m1 = assoc_map(t);
    let m2 = assoc_map(s).remove(s[i].0@);
    assert forall|k: Seq<char>| m1.dom().contains(k) <==> m2.dom().contains(k) by {
        lemma_assoc_dom(t, k);
        lemma_assoc_dom(s, k);
        if exists|j: int| 0 <= j < s.len() && (#[trigger] s[j]).0@ == k {
            let j = choose|j: int| 0 <= j < s.len() && (#[trigger] s[j]).0@ == k;
            if j < i {
                assert(t[j] == s[j]);
            } else if j > i {
                assert(t[j - 1] == s[j]);
            }
        }
        if exists|j: int| 0 <= j < t.len() && (#[trigger] t[j]).0@ == k {
            let j = choose|j: int| 0 <= j < t.len() && (#[trigger] t[j]).0@ == k;
            let j2 = if j < i { j } else { j + 1 };
            assert(t[j] == s[j2]);
        }
    }
    assert forall|k: Seq<char>| #[trigger] m1.dom().contains(k) implies m1[k] == m2[k] by {
        lemma_assoc_dom(t, k);
        let j = choose|j: int| 0 <= j < t.len() && (#[trigger] t[j]).0@ == k;
        let j2 = if j < i { j } else { j + 1 };
        assert(t[j] == s[j2]);
        lemma_assoc_index(t, j);
        lemma_assoc_index(s, j2);
    }
    assert(m1 =~= m2);
}

/// The position of the pair whose key equals `k`, if any.
pub fn find_key<V>(s: &Vec<(String, V)>, k: &String) -> (r: Option<usize>)
    ensures
        match r {
            Some(i) => i < s@.len() && s@[i as int].0@ == k@,
            None => !assoc_map(s@).dom().contains(k@),
        },
{
    let mut i: usize = 0;
    while i < s.len()
        invariant
            i <= s@.len(),
            forall|j: int| 0 <= j < i ==> (#[trigger] s@[j]).0@ != k@,
        decreases s@.len() - i,
    {
        if s[i].0 == *k {
            return Some(i);
        }
        i = i + 1;
    }
    proof {
        lemma_assoc_dom(s@, k@);
    }
    None
}

/// The key of an entry keyed by a pair of strings.
pub open spec fn pkey<V>(e: ((String, String), V)) -> (Seq<char>, Seq<char>) {
    (e.0.0@, e.0.1@)
}

/// No pair key occurs twice.
pub open spec fn distinct_pair_keys<V>(s: Seq<((String, String), V)>) -> bool {
    forall|i: int, j: int|
        0 <= i < s.len() && 0 <= j < s.len() && i != j ==> #[trigger] pkey(s[i]) != #[trigger] pkey(s[j])
}

/// The map that an association list describes; for a repeated key the last
/// pair wins.
pub open spec fn pair_map<V>(s: Seq<((String, String), V)>) -> Map<(Seq<char>, Seq<char>), V>
    decreases s.len(),
{
    if s.len() == 0 {
        Map::empty()
    } else {
        pair_map(s.drop_last()).insert(pkey(s.last()), s.last().1)
    }
}

/// A key is in the map exactly when some pair carries it.
pub proof fn lemma_pair_dom<V>(s: Seq<((String, String), V)>, k: (Seq<char>, Seq<char>))
    ensures
        pair_map(s).dom().contains(k) <==> exists|i: int| 0 <= i < s.len() && #[trigger] pkey(s[i]) == k,
    decreases s.len(),
{
    if s.len() > 0 {
        lemma_pair_dom(s.drop_last(), k);
        if pair_map(s.drop_last()).dom().contains(k) {
            let i = choose|i: int| 0 <= i < s.drop_last().len() && (#[trigger] s.drop_last()[i]).0@ == k;
            assert(s[i] == s.drop_last()[i]);
        }
        if exists|i: int| 0 <= i < s.len() && #[trigger] pkey(s[i]) == k {
            let i = choose|i: int| 0 <= i < s.len() && #[trigger] pkey(s[i]) == k;
            if i < s.len() - 1 {
                assert(s.drop_last()[i] == s[i]);
            }
        }
    }
}

/// With distinct keys, each pair's key maps to that pair's value.
pub proof fn lemma_pair_index<V>(s: Seq<((String, String), V)>, i: int)
    requires
        distinct_pair_keys(s),
        0 <= i < s.len(),
    ensures
        pair_map(s).dom().contains(pkey(s[i])),
        pair_map(s)[pkey(s[i])] == s[i].1,
    decreases s.len(),
{
    if i < s.len() - 1 {
        let t = s.drop_last();
        assert(t[i] == s[i]);
        assert(distinct_pair_keys(t)) by {
            assert forall|a: int, b: int| 0 <= a < t.len() && 0 <= b < t.len() && a != b implies
                #[trigger] pkey(t[a]) != #[trigger] pkey(t[b]) by {
                assert(t[a] == s[a] && t[b] == s[b]);
            }
        }
        lemma_pair_index(t, i);
        assert(pkey(s[s.len() - 1]) != pkey(s[i]));
    }
}

/// Appending a pair inserts its key and value.
pub proof fn lemma_pair_push<V>(s: Seq<((String, String), V)>, e: ((String, String), V))
    ensures
        pair_map(s.push(e)) == pair_map(s).insert(pkey(e), e.1),
{
    assert(s.push(e).drop_last() =~= s);
}

/// Appending a pair with a new key keeps the keys distinct.
pub proof fn lemma_pair_distinct_push<V>(s: Seq<((String, String), V)>, e: ((String, String), V))
    requires
        distinct_pair_keys(s),
        !pair_map(s).dom().contains(pkey(e)),
    ensures
        distinct_pair_keys(s.push(e)),
{
    lemma_pair_dom(s, pkey(e));
    let t = s.push(e);
    assert forall|a: int, b: int| 0 <= a < t.len() && 0 <= b < t.len() && a != b implies
        #[trigger] pkey(t[a]) != #[trigger] pkey(t[b]) by {
        if a < s.len() && b < s.len() {
            assert(t[a] == s[a] && t[b] == s[b]);
        } else if a < s.len() {
            assert(t[a] == s[a]);
        } else {
            assert(t[b] == s[b]);
        }
    }
}

/// Replacing the value of an existing pair (same key) inserts the new value.
pub proof fn lemma_pair_update<V>(s: Seq<((String, String), V)>, i: int, e: ((String, String), V))
    requires
        distinct_pair_keys(s),
        0 <= i < s.len(),
        pkey(e) == pkey(s[i]),
    ensures
        distinct_pair_keys(s.update(i, e)),
        pair_map(s.update(i, e)) == pair_map(s).insert(pkey(e), e.1),
{
    let t = s.update(i, e);
    assert(distinct_pair_keys(t)) by {
        assert forall|a: int, b: int| 0 <= a < t.len() && 0 <= b < t.len() && a != b implies
            #[trigger] pkey(t[a]) != #[trigger] pkey(t[b]) by {
            assert(pkey(t[a]) == pkey(s[a]) && pkey(t[b]) == pkey(s[b]));
        }
    }
    let m1 = pair_map(t);
    let m2 = pair_map(s).insert(pkey(e), e.1);
    assert forall|k: (Seq<char>, Seq<char>)| m1.dom().contains(k) <==> m2.dom().contains(k) by {
        lemma_pair_dom(t, k);
        lemma_pair_dom(s, k);
        if exists|j: int| 0 <= j < s.len() && #[trigger] pkey(s[j]) == k {
            let j = choose|j: int| 0 <= j < s.len() && #[trigger] pkey(s[j]) == k;
            assert(pkey(t[j]) == k);
        }
        if exists|j: int| 0 <= j < t.len() && #[trigger] pkey(t[j]) == k {
            let j = choose|j: int| 0 <= j < t.len() && #[trigger] pkey(t[j]) == k;
            assert(pkey(s[j]) == k);
        }
    }
    assert forall|k: (Seq<char>, Seq<char>)| #[trigger] m1.dom().contains(k) implies m1[k] == m2[k] by {
        lemma_pair_dom(t, k);
        let j = choose|j: int| 0 <= j < t.len() && #[trigger] pkey(t[j]) == k;
        lemma_pair_index(t, j);
        if j != i {
            lemma_pair_index(s, j);
        }
    }
    assert(m1 =~= m2);
}

/// Removing a pair removes its key, when keys are distinct.
pub proof fn lemma_pair_remove<V>(s: Seq<((String, String), V)>, i: int)
    requires
        distinct_pair_keys(s),
        0 <= i < s.len(),
    ensures
        distinct_pair_keys(s.remove(i)),
        pair_map(s.remove(i)) == pair_map(s).remove(pkey(s[i])),
{
    let t = s.remove(i);
    assert forall|a: int| 0 <= a < t.len() implies #[trigger] t[a] == s[if a < i { a } else { a + 1 }] by {}
    assert(distinct_pair_keys(t)) by {
        assert forall|a: int, b: int| 0 <= a < t.len() && 0 <= b < t.len() && a != b implies
            #[trigger] pkey(t[a]) != #[trigger] pkey(t[b]) by {
            let a2 = if a < i { a } else { a + 1 };
            let b2 = if b < i { b } else { b + 1 };
            assert(t[a] == s[a2] && t[b] == s[b2]);
        }
    }
    let m1 = pair_map(t);
    let m2 = pair_map(s).remove(pkey(s[i]));
    assert forall|k: (Seq<char>, Seq<char>)| m1.dom().contains(k) <==> m2.dom().contains(k) by {
        lemma_pair_dom(t, k);
        lemma_pair_dom(s, k);
        if exists|j: int| 0 <= j < s.len() && #[trigger] pkey(s[j]) == k {
            let j = choose|j: int| 0 <= j < s.len() && #[trigger] pkey(s[j]) == k;
            if j < i {
                assert(t[j] == s[j]);
            } else if j > i {
                assert(t[j - 1] == s[j]);
            }
        }
        if exists|j: int| 0 <= j < t.len() && #[trigger] pkey(t[j]) == k {
            let j = choose|j: int| 0 <= j < t.len() && #[trigger] pkey(t[j]) == k;
            let j2 = if j < i { j } else { j + 1 };
            assert(t[j] == s[j2]);
        }
    }
    assert forall|k: (Seq<char>, Seq<char>)| #[trigger] m1.dom().contains(k) implies m1[k] == m2[k] by {
        lemma_pair_dom(t, k);
        let j = choose|j: int| 0 <= j < t.len() && #[trigger] pkey(t[j]) == k;
        let j2 = if j < i { j } else { j + 1 };
        assert(t[j] == s[j2]);
        lemma_pair_index(t, j);
        lemma_pair_index(s, j2);
    }
    assert(m1 =~= m2);
}

/// The position of the pair whose key is `(a, c)`, if any.
pub fn find_pair_key<V>(s: &Vec<((String, String), V)>, a: &String, c: &String) -> (r: Option<usize>)
    ensures
        match r {
            Some(i) => i < s@.len() && pkey(s@[i as int]) == (a@, c@),
            None => !pair_map(s@).dom().contains((a@, c@)),
        },
{
    let mut i: usize = 0;
    while i < s.len()
        invariant
            i <= s@.len(),
            forall|j: int| 0 <= j < i ==> #[trigger] pkey(s@[j]) != (a@, c@),
        decreases s@.len() - i,
    {
        if s[i].0.0 == *a && s[i].0.1 == *c {
            return Some(i);
        }
        i = i + 1;
    }
    proof {
        lemma_pair_dom(s@, (a@, c@));
    }
    None
}

} // verus!
