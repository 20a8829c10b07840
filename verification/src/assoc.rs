//! Association lists of text keys and values that behave like a map filled by
//! successive inserts: one entry per key, in order of first insertion, holding
//! the last value inserted for it.
use vstd::prelude::*;
use crate::text::str_eq;

verus! {

broadcast use vstd::string::group_string_axioms;

/// Pairs of strings, as sequences.
pub open spec fn pairs_view(v: Seq<(String, String)>) -> Seq<(Seq<char>, Seq<char>)> {
    v.map_values(|p: (String, String)| (p.0@, p.1@))
}

/// The first position at or after `i` whose key is `k`.
pub open spec fn key_index_from(m: Seq<(Seq<char>, Seq<char>)>, k: Seq<char>, i: int) -> Option<int>
    decreases m.len() - i,
{
    if i < 0 || i >= m.len() {
        None
    } else if m[i].0 == k {
        Some(i)
    } else {
        key_index_from(m, k, i + 1)
    }
}

/// The first position whose key is `k`.
pub open spec fn key_index(m: Seq<(Seq<char>, Seq<char>)>, k: Seq<char>) -> Option<int> {
    key_index_from(m, k, 0)
}

/// `m` after inserting `v` under `k`: an entry for `k` takes the new value in
/// place; otherwise the entry is appended.
pub open spec fn assoc_insert(m: Seq<(Seq<char>, Seq<char>)>, k: Seq<char>, v: Seq<char>) -> Seq<(Seq<char>, Seq<char>)> {
    match key_index(m, k) {
        Some(i) => m.update(i, (k, v)),
        None => m.push((k, v)),
    }
}

/// The list built by inserting every pair in order into an empty list.
pub open spec fn assoc_build(pairs: Seq<(Seq<char>, Seq<char>)>) -> Seq<(Seq<char>, Seq<char>)>
    decreases pairs.len(),
{
    if pairs.len() == 0 {
        Seq::empty()
    } else {
        assoc_insert(assoc_build(pairs.drop_last()), pairs.last().0, pairs.last().1)
    }
}

/// The value held for `k`.
pub open spec fn assoc_get(m: Seq<(Seq<char>, Seq<char>)>, k: Seq<char>) -> Option<Seq<char>> {
    match key_index(m, k) {
        Some(i) => Some(m[i].1),
        None => None,
    }
}

/// The value of the last pair whose key is `k`.
pub open spec fn last_value(pairs: Seq<(Seq<char>, Seq<char>)>, k: Seq<char>) -> Option<Seq<char>>
    decreases pairs.len(),
{
    if pairs.len() == 0 {
        None
    } else if pairs.last().0 == k {
        Some(pairs.last().1)
    } else {
        last_value(pairs.drop_last(), k)
    }
}

/// No key occurs twice.
pub open spec fn keys_unique(m: Seq<(Seq<char>, Seq<char>)>) -> bool {
    forall|i: int, j: int| 0 <= i < j < m.len() ==> (#[trigger] m[i]).0 != (#[trigger] m[j]).0
}

proof fn lemma_key_index_from(m: Seq<(Seq<char>, Seq<char>)>, k: Seq<char>, i: int)
    requires
        0 <= i,
    ensures
        match key_index_from(m, k, i) {
            Some(j) => i <= j < m.len() && m[j].0 == k && forall|l: int| i <= l < j ==> m[l].0 != k,
            None => forall|l: int| i <= l < m.len() ==> m[l].0 != k,
        },
    decreases m.len() - i,
{
    if i < m.len() && m[i].0 != k {
        lemma_key_index_from(m, k, i + 1);
    }
}

/// Inserting keeps keys unique and sets the value of `k` alone.
pub proof fn lemma_assoc_insert(m: Seq<(Seq<char>, Seq<char>)>, k: Seq<char>, v: Seq<char>)
    requires
        keys_unique(m),
    ensures
        keys_unique(assoc_insert(m, k, v)),
        assoc_get(assoc_insert(m, k, v), k) == Some(v),
        forall|k2: Seq<char>| k2 != k ==> assoc_get(assoc_insert(m, k, v), k2) == assoc_get(m, k2),
{
    lemma_key_index_from(m, k, 0);
    let r = assoc_insert(m, k, v);
    lemma_key_index_from(r, k, 0);
    match key_index(m, k) {
        Some(i) => {
            assert(r[i].0 == k);
            match key_index(r, k) {
                Some(j) => {
                    if j < i {
                        assert(r[j] == m[j]);
                    }
                    assert(j == i);
                },
                None => {
                    assert(false);
                },
            }
            assert forall|a: int, b: int| 0 <= a < b < r.len() implies (#[trigger] r[a]).0 != (#[trigger] r[b]).0 by {
                if a != i && b != i {
                    assert(r[a] == m[a] && r[b] == m[b]);
                } else if a == i {
                    assert(r[b] == m[b]);
                    assert(m[a].0 == k);
                } else {
                    assert(r[a] == m[a]);
                    assert(m[b].0 == k);
                }
            }
        },
        None => {
            assert(r[m.len() as int].0 == k);
            match key_index(r, k) {
                Some(j) => {
                    if j < m.len() {
                        assert(r[j] == m[j]);
                    }
                    assert(j == m.len());
                },
                None => {
                    assert(false);
                },
            }
            assert forall|a: int, b: int| 0 <= a < b < r.len() implies (#[trigger] r[a]).0 != (#[trigger] r[b]).0 by {
                assert(r[a] == m[a]);
                if b < m.len() {
                    assert(r[b] == m[b]);
                }
            }
        },
    }
    assert forall|k2: Seq<char>| k2 != k implies assoc_get(r, k2) == assoc_get(m, k2) by {
        lemma_key_index_from(m, k2, 0);
        lemma_key_index_from(r, k2, 0);
        match key_index(m, k2) {
            Some(j) => {
                assert(r[j] == m[j]);
                match key_index(r, k2) {
                    Some(j2) => {
                        if j2 < j {
                            assert(r[j2] == m[j2]);
                        }
                        assert(j2 == j);
                    },
                    None => {
                        assert(false);
                    },
                }
            },
            None => {
                match key_index(r, k2) {
                    Some(j2) => {
                        if j2 < m.len() {
                            assert(r[j2] == m[j2] || r[j2].0 == k);
                        }
                        assert(false);
                    },
                    None => {},
                }
            },
        }
    }
}

/// Building from pairs keeps each key's last value and no key twice.
pub proof fn lemma_assoc_build(pairs: Seq<(Seq<char>, Seq<char>)>)
    ensures
        keys_unique(assoc_build(pairs)),
        forall|k: Seq<char>| #[trigger] assoc_get(assoc_build(pairs), k) == last_value(pairs, k),
    decreases pairs.len(),
{
    if pairs.len() > 0 {
        let prev = pairs.drop_last();
        lemma_assoc_build(prev);
        lemma_assoc_insert(assoc_build(prev), pairs.last().0, pairs.last().1);
        assert forall|k: Seq<char>| #[trigger] assoc_get(assoc_build(pairs), k) == last_value(pairs, k) by {
            if k != pairs.last().0 {
                assert(assoc_get(assoc_build(prev), k) == last_value(prev, k));
            }
        }
    }
}

/// Inserts `v` under `k` in place, or appends the pair.
pub fn assoc_insert_exec(m: &mut Vec<(String, String)>, k: String, v: String)
    ensures
        pairs_view(final(m)@) == assoc_insert(pairs_view(old(m)@), k@, v@),
{
    let ghost mv = pairs_view(m@);
    let mut i: usize = 0;
    while i < m.len()
        invariant
            i <= m@.len(),
            m@ == old(m)@,
            mv == pairs_view(m@),
            key_index(mv, k@) == key_index_from(mv, k@, i as int),
        decreases m@.len() - i,
    {
        if str_eq(m[i].0.as_str(), k.as_str()) {
            m.set(i, (k, v));
            assert(pairs_view(m@) =~= assoc_insert(mv, k@, v@));
            return;
        }
        i = i + 1;
    }
    m.push((k, v));
    assert(pairs_view(m@) =~= assoc_insert(mv, k@, v@));
}

/// The value held for `k`.
pub fn assoc_lookup(m: &Vec<(String, String)>, k: &str) -> (r: Option<String>)
    ensures
        match r {
            Some(x) => assoc_get(pairs_view(m@), k@) == Some(x@),
            None => assoc_get(pairs_view(m@), k@) is None,
        },
{
    let ghost mv = pairs_view(m@);
    let mut i: usize = 0;
    while i < m.len()
        invariant
            i <= m@.len(),
            mv == pairs_view(m@),
            key_index(mv, k@) == key_index_from(mv, k@, i as int),
        decreases m@.len() - i,
    {
        if str_eq(m[i].0.as_str(), k) {
            return Some(m[i].1.clone());
        }
        i = i + 1;
    }
    None
}

/// The list built by inserting every pair in order.
pub fn assoc_from_pairs(pairs: &Vec<(String, String)>) -> (r: Vec<(String, String)>)
    ensures
        pairs_view(r@) == assoc_build(pairs_view(pairs@)),
{
    let ghost pv = pairs_view(pairs@);
    let mut out: Vec<(String, String)> = Vec::new();
    let mut i: usize = 0;
    while i < pairs.len()
        invariant
            i <= pairs@.len(),
            pv == pairs_view(pairs@),
            pairs_view(out@) == assoc_build(pv.take(i as int)),
        decreases pairs@.len() - i,
    {
        assert(pv.take(i + 1).drop_last() =~= pv.take(i as int));
        assoc_insert_exec(&mut out, pairs[i].0.clone(), pairs[i].1.clone());
        i = i + 1;
    }
    assert(pv.take(pairs@.len() as int) =~= pv);
    out
}

} // verus!
