//! Insertion-ordered string key/value lists with upsert-by-key semantics:
//! the map shape shared by kubeconfig preferences and the file-backed
//! credential store.

use vstd::prelude::*;

use crate::find::{first_where, lemma_first_where, lemma_first_where_is, lemma_first_where_none};
use crate::text::str_eq;
use vstd::pervasive::VecAdditionalExecFns;

verus! {

/// The model of a key/value list.
pub open spec fn kv_model(v: Seq<(String, String)>) -> Seq<(Seq<char>, Seq<char>)> {
    v.map_values(|p: (String, String)| (p.0@, p.1@))
}

/// Index of the first entry with the given key, or -1.
pub open spec fn kv_index(m: Seq<(Seq<char>, Seq<char>)>, key: Seq<char>) -> int {
    first_where(m, |e: (Seq<char>, Seq<char>)| e.0 == key)
}

/// The value recorded under `key`, if any.
pub open spec fn kv_value(m: Seq<(Seq<char>, Seq<char>)>, key: Seq<char>) -> Option<Seq<char>> {
    let i = kv_index(m, key);
    if i >= 0 {
        Some(m[i].1)
    } else {
        None
    }
}

/// The list after recording `val` under `key`: the first entry with that key
/// is replaced in place, or a new entry is appended.
pub open spec fn kv_upsert(
    m: Seq<(Seq<char>, Seq<char>)>,
    key: Seq<char>,
    val: Seq<char>,
) -> Seq<(Seq<char>, Seq<char>)> {
    let i = kv_index(m, key);
    if i >= 0 {
        m.update(i, (key, val))
    } else {
        m.push((key, val))
    }
}

/// The list after removing the first entry with `key`, if one exists.
pub open spec fn kv_removed(m: Seq<(Seq<char>, Seq<char>)>, key: Seq<char>) -> Seq<
    (Seq<char>, Seq<char>),
> {
    let i = kv_index(m, key);
    if i >= 0 {
        m.remove(i)
    } else {
        m
    }
}

/// The keys of the list, pairwise distinct.
pub open spec fn kv_distinct_keys(m: Seq<(Seq<char>, Seq<char>)>) -> bool {
    forall|j: int, k: int| 0 <= j < k < m.len() ==> (#[trigger] m[j]).0 != (#[trigger] m[k]).0
}

/// Law: an upsert keeps the keys pairwise distinct.
pub proof fn lemma_kv_upsert_keeps_distinct(
    m: Seq<(Seq<char>, Seq<char>)>,
    key: Seq<char>,
    val: Seq<char>,
)
    requires
        kv_distinct_keys(m),
    ensures
        kv_distinct_keys(kv_upsert(m, key, val)),
{
    let p = |e: (Seq<char>, Seq<char>)| e.0 == key;
    lemma_first_where(m, p);
    let i = kv_index(m, key);
    let m2 = kv_upsert(m, key, val);
    if i >= 0 {
        // Replacement in place under the same key: the key list is unchanged.
        assert(m[i].0 == key);
        assert forall|j: int, k: int| 0 <= j < k < m2.len() implies (#[trigger] m2[j]).0
            != (#[trigger] m2[k]).0 by {
            assert(m2[j].0 == m[j].0);
            assert(m2[k].0 == m[k].0);
        }
    } else {
        // A fresh key is appended; no existing entry carries it.
        assert forall|j: int, k: int| 0 <= j < k < m2.len() implies (#[trigger] m2[j]).0
            != (#[trigger] m2[k]).0 by {
            if k == m.len() {
                assert(!p(m[j]));
                assert(m2[j] == m[j]);
                assert(m2[k].0 == key);
            } else {
                assert(m2[j] == m[j]);
                assert(m2[k] == m[k]);
            }
        }
    }
}

/// Law: after an upsert, the upserted key reads back exactly the new value.
pub proof fn lemma_kv_upsert_reads_back(
    m: Seq<(Seq<char>, Seq<char>)>,
    key: Seq<char>,
    val: Seq<char>,
)
    ensures
        kv_value(kv_upsert(m, key, val), key) == Some(val),
{
    let p = |e: (Seq<char>, Seq<char>)| e.0 == key;
    let i = kv_index(m, key);
    lemma_first_where(m, p);
    let m2 = kv_upsert(m, key, val);
    if i >= 0 {
        assert(m2 == m.update(i, (key, val)));
        assert(p(m2[i]));
        assert(forall|k: int| 0 <= k < i ==> m2[k] == #[trigger] m[k]);
        lemma_first_where_is(m2, p, i);
    } else {
        assert(m2 == m.push((key, val)));
        assert(p(m2[m.len() as int]));
        assert(forall|k: int| 0 <= k < m.len() ==> m2[k] == #[trigger] m[k]);
        lemma_first_where_is(m2, p, m.len() as int);
    }
}

/// Law: an upsert leaves every other key's value untouched.
pub proof fn lemma_kv_upsert_preserves_others(
    m: Seq<(Seq<char>, Seq<char>)>,
    key: Seq<char>,
    val: Seq<char>,
    other: Seq<char>,
)
    requires
        other != key,
    ensures
        kv_value(kv_upsert(m, key, val), other) == kv_value(m, other),
{
    let p = |e: (Seq<char>, Seq<char>)| e.0 == other;
    let q = |e: (Seq<char>, Seq<char>)| e.0 == key;
    let m2 = kv_upsert(m, key, val);
    let j = kv_index(m, key);
    lemma_first_where(m, q);
    lemma_first_where(m, p);
    let i = kv_index(m, other);
    if j >= 0 {
        assert(m2 =~= m.update(j, (key, val)));
    } else {
        assert(m2 =~= m.push((key, val)));
    }
    if i >= 0 {
        assert(p(m2[i]));
        assert(forall|k: int| 0 <= k < i ==> !p(#[trigger] m2[k]));
        lemma_first_where_is(m2, p, i);
    } else {
        assert(forall|k: int| 0 <= k < m2.len() ==> !p(#[trigger] m2[k]));
        lemma_first_where_none(m2, p);
    }
}

/// Record `val` under `key`.
pub fn kv_set(list: &mut Vec<(String, String)>, key: &str, val: String)
    ensures
        kv_model(final(list)@) == kv_upsert(kv_model(old(list)@), key@, val@),
{
    let ghost m = kv_model(list@);
    let ghost p = |e: (Seq<char>, Seq<char>)| e.0 == key@;
    let mut i: usize = 0;
    while i < list.len()
        invariant
            m == kv_model(list@),
            m == kv_model(old(list)@),
            p == (|e: (Seq<char>, Seq<char>)| e.0 == key@),
            i <= list@.len(),
            forall|k: int| 0 <= k < i ==> !p(#[trigger] m[k]),
        decreases list@.len() - i,
    {
        if str_eq(list[i].0.as_str(), key) {
            proof {
                assert(m[i as int] == (list@[i as int].0@, list@[i as int].1@));
                assert(p(m[i as int]));
                lemma_first_where_is(m, p, i as int);
            }
            let owned_key = key.to_owned();
            list.set(i, (owned_key, val));
            assert(kv_model(list@) =~= kv_upsert(m, key@, val@));
            return ;
        }
        proof {
            assert(m[i as int] == (list@[i as int].0@, list@[i as int].1@));
            assert(!p(m[i as int]));
        }
        i = i + 1;
    }
    proof {
        lemma_first_where_none(m, p);
    }
    let owned_key = key.to_owned();
    list.push((owned_key, val));
    assert(kv_model(list@) =~= kv_upsert(m, key@, val@));
}

/// Look up the value recorded under `key`.
pub fn kv_get<'a>(list: &'a Vec<(String, String)>, key: &str) -> (r: Option<&'a String>)
    ensures
        match r {
            Some(v) => kv_value(kv_model(list@), key@) == Some(v@),
            None => kv_value(kv_model(list@), key@) is None,
        },
{
    let ghost m = kv_model(list@);
    let ghost p = |e: (Seq<char>, Seq<char>)| e.0 == key@;
    let mut i: usize = 0;
    while i < list.len()
        invariant
            m == kv_model(list@),
            p == (|e: (Seq<char>, Seq<char>)| e.0 == key@),
            i <= list@.len(),
            forall|k: int| 0 <= k < i ==> !p(#[trigger] m[k]),
        decreases list@.len() - i,
    {
        if str_eq(list[i].0.as_str(), key) {
            proof {
                assert(m[i as int] == (list@[i as int].0@, list@[i as int].1@));
                assert(p(m[i as int]));
                lemma_first_where_is(m, p, i as int);
            }
            return Some(&list[i].1);
        }
        proof {
            assert(m[i as int] == (list@[i as int].0@, list@[i as int].1@));
            assert(!p(m[i as int]));
        }
        i = i + 1;
    }
    proof {
        lemma_first_where_none(m, p);
    }
    None
}

/// Remove the first entry recorded under `key`, if any.
pub fn kv_del(list: &mut Vec<(String, String)>, key: &str)
    ensures
        kv_model(final(list)@) == kv_removed(kv_model(old(list)@), key@),
{
    let ghost m = kv_model(list@);
    let ghost p = |e: (Seq<char>, Seq<char>)| e.0 == key@;
    let mut i: usize = 0;
    while i < list.len()
        invariant
            m == kv_model(list@),
            m == kv_model(old(list)@),
            p == (|e: (Seq<char>, Seq<char>)| e.0 == key@),
            i <= list@.len(),
            forall|k: int| 0 <= k < i ==> !p(#[trigger] m[k]),
        decreases list@.len() - i,
    {
        if str_eq(list[i].0.as_str(), key) {
            proof {
                assert(m[i as int] == (list@[i as int].0@, list@[i as int].1@));
                assert(p(m[i as int]));
                lemma_first_where_is(m, p, i as int);
            }
            list.remove(i);
            assert(kv_model(list@) =~= kv_removed(m, key@));
            return ;
        }
        proof {
            assert(m[i as int] == (list@[i as int].0@, list@[i as int].1@));
            assert(!p(m[i as int]));
        }
        i = i + 1;
    }
    proof {
        lemma_first_where_none(m, p);
    }
}

} // verus!
