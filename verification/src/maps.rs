//! Ordered maps as association lists. Keys are unique and insertion
//! order is preserved, because order participates in the canonical form
//! of most structures. `put` replaces in place or appends at the end.

use vstd::prelude::*;
use crate::text::str_eq;

verus! {

/// The character-level view of a list of string pairs.
pub open spec fn pairs_view(s: Seq<(String, String)>) -> Seq<(Seq<char>, Seq<char>)> {
    Seq::new(s.len(), |i: int| (s[i].0@, s[i].1@))
}

/// The value under the first occurrence of a key.
pub open spec fn assoc_get<V>(m: Seq<(Seq<char>, V)>, k: Seq<char>) -> Option<V>
    decreases m.len(),
{
    if m.len() == 0 {
        None
    } else if m[0].0 == k {
        Some(m[0].1)
    } else {
        assoc_get(m.drop_first(), k)
    }
}

/// Whether a key is present.
pub open spec fn assoc_has<V>(m: Seq<(Seq<char>, V)>, k: Seq<char>) -> bool {
    assoc_get(m, k) is Some
}

/// Replaces the value under a present key in place, or appends the new
/// pair at the end.
pub open spec fn assoc_put<V>(m: Seq<(Seq<char>, V)>, k: Seq<char>, v: V) -> Seq<(Seq<char>, V)>
    decreases m.len(),
{
    if m.len() == 0 {
        seq![(k, v)]
    } else if m[0].0 == k {
        m.update(0, (k, v))
    } else {
        seq![m[0]] + assoc_put(m.drop_first(), k, v)
    }
}

/// With the key at position `i` and nowhere earlier, `put` is `update`.
pub proof fn lemma_assoc_put_found<V>(m: Seq<(Seq<char>, V)>, k: Seq<char>, v: V, i: int)
    requires
        0 <= i < m.len(),
        m[i].0 == k,
        forall|j: int| 0 <= j < i ==> m[j].0 != k,
    ensures
        assoc_put(m, k, v) =~= m.update(i, (k, v)),
        assoc_get(m, k) == Some(m[i].1),
    decreases i,
{
    if i == 0 {
        assert(assoc_put(m, k, v) =~= m.update(0, (k, v)));
    } else {
        lemma_assoc_put_found(m.drop_first(), k, v, i - 1);
        assert(seq![m[0]] + m.drop_first().update(i - 1, (k, v)) =~= m.update(i, (k, v)));
    }
}

/// With the key absent, `put` appends and `get` finds nothing.
pub proof fn lemma_assoc_put_missing<V>(m: Seq<(Seq<char>, V)>, k: Seq<char>, v: V)
    requires
        forall|j: int| 0 <= j < m.len() ==> m[j].0 != k,
    ensures
        assoc_put(m, k, v) =~= m.push((k, v)),
        assoc_get(m, k) is None,
    decreases m.len(),
{
    if m.len() > 0 {
        lemma_assoc_put_missing(m.drop_first(), k, v);
        assert(seq![m[0]] + m.drop_first().push((k, v)) =~= m.push((k, v)));
    }
}

/// Replaces the value under `k`, or appends `(k, v)` at the end.
pub fn alist_put(m: &mut Vec<(String, String)>, k: &String, v: &String)
    ensures
        pairs_view(final(m)@) == assoc_put(pairs_view(old(m)@), k@, v@),
{
    let n = m.len();
    let mut i: usize = 0;
    while i < n
        invariant
            i <= n,
            n == m@.len(),
            m@ == old(m)@,
            forall|j: int| 0 <= j < i ==> pairs_view(m@)[j].0 != k@,
        decreases n - i,
    {
        let hit = {
            let pair = &m[i];
            str_eq(pair.0.as_str(), k.as_str())
        };
        if hit {
            let _ = m.remove(i);
            m.insert(i, (k.clone(), v.clone()));
            proof {
                lemma_assoc_put_found(pairs_view(old(m)@), k@, v@, i as int);
                assert(pairs_view(m@) =~= pairs_view(old(m)@).update(i as int, (k@, v@)));
            }
            return;
        }
        i += 1;
    }
    m.push((k.clone(), v.clone()));
    proof {
        lemma_assoc_put_missing(pairs_view(old(m)@), k@, v@);
        assert(pairs_view(m@) =~= pairs_view(old(m)@).push((k@, v@)));
    }
}

/// Finds the value under `k`, as `assoc_get` names it.
pub fn alist_get<'a>(m: &'a Vec<(String, String)>, k: &str) -> (r: Option<&'a String>)
    ensures
        match r {
            Some(s) => assoc_get(pairs_view(m@), k@) == Some(s@),
            None => assoc_get(pairs_view(m@), k@) is None,
        },
{
    let n = m.len();
    let mut i: usize = 0;
    while i < n
        invariant
            i <= n,
            n == m@.len(),
            forall|j: int| 0 <= j < i ==> pairs_view(m@)[j].0 != k@,
        decreases n - i,
    {
        let pair = &m[i];
        if str_eq(pair.0.as_str(), k) {
            proof {
                lemma_assoc_get_at(pairs_view(m@), k@, i as int);
            }
            return Some(&pair.1);
        }
        i += 1;
    }
    proof {
        lemma_assoc_get_none(pairs_view(m@), k@);
    }
    None
}

/// With the key absent everywhere, `get` finds nothing.
pub proof fn lemma_assoc_get_none<V>(m: Seq<(Seq<char>, V)>, k: Seq<char>)
    requires
        forall|j: int| 0 <= j < m.len() ==> m[j].0 != k,
    ensures
        assoc_get(m, k) is None,
    decreases m.len(),
{
    if m.len() > 0 {
        lemma_assoc_get_none(m.drop_first(), k);
    }
}

/// With the key at position `i` and nowhere earlier, `get` finds it.
pub proof fn lemma_assoc_get_at<V>(m: Seq<(Seq<char>, V)>, k: Seq<char>, i: int)
    requires
        0 <= i < m.len(),
        m[i].0 == k,
        forall|j: int| 0 <= j < i ==> m[j].0 != k,
    ensures
        assoc_get(m, k) == Some(m[i].1),
    decreases i,
{
    if i > 0 {
        lemma_assoc_get_at(m.drop_first(), k, i - 1);
    }
}

} // verus!
