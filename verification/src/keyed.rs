//! Maps from action names to values, kept as vectors of pairs in the order
//! in which the names were first inserted.

use vstd::prelude::*;
use crate::text::str_eq;

verus! {

/// The pairs of `s` with each name taken as its characters.
pub open spec fn kv<V>(s: Seq<(String, V)>) -> Seq<(Seq<char>, V)> {
    s.map_values(|e: (String, V)| (e.0@, e.1))
}

/// The position of the first pair whose name is `k`, or -1 if there is none.
pub open spec fn key_index<V>(s: Seq<(Seq<char>, V)>, k: Seq<char>) -> int
    decreases s.len(),
{
    if s.len() == 0 {
        -1
    } else {
        let r = key_index(s.drop_last(), k);
        if r >= 0 {
            r
        } else if s.last().0 == k {
            s.len() - 1
        } else {
            -1
        }
    }
}

/// The value stored under `k`, if any.
pub open spec fn lookup<V>(s: Seq<(Seq<char>, V)>, k: Seq<char>) -> Option<V> {
    let i = key_index(s, k);
    if i >= 0 {
        Some(s[i].1)
    } else {
        None
    }
}

/// Whether `k` is stored in `s`.
pub open spec fn has_key<V>(s: Seq<(Seq<char>, V)>, k: Seq<char>) -> bool {
    key_index(s, k) >= 0
}

/// Map insertion: the value of an existing name is replaced in place; a new
/// name is added at the end.
pub open spec fn insert_key<V>(s: Seq<(Seq<char>, V)>, k: Seq<char>, v: V) -> Seq<(Seq<char>, V)> {
    let i = key_index(s, k);
    if i >= 0 {
        s.update(i, (s[i].0, v))
    } else {
        s.push((k, v))
    }
}

/// The value of an existing name is replaced; nothing happens to an absent name.
pub open spec fn set_existing<V>(s: Seq<(Seq<char>, V)>, k: Seq<char>, v: V) -> Seq<(Seq<char>, V)> {
    let i = key_index(s, k);
    if i >= 0 {
        s.update(i, (s[i].0, v))
    } else {
        s
    }
}

/// No name occurs twice.
pub open spec fn distinct_keys<V>(s: Seq<(Seq<char>, V)>) -> bool {
    forall|i: int, j: int| 0 <= i < j < s.len() ==> s[i].0 != s[j].0
}

/// What `key_index` is: the first position holding `k`.
pub proof fn lemma_key_index<V>(s: Seq<(Seq<char>, V)>, k: Seq<char>)
    ensures
        -1 <= key_index(s, k) < s.len(),
        key_index(s, k) >= 0 ==> s[key_index(s, k)].0 == k,
        forall|j: int| 0 <= j < s.len() && (key_index(s, k) == -1 || j < key_index(s, k)) ==> s[j].0 != k,
    decreases s.len(),
{
    if s.len() > 0 {
        lemma_key_index(s.drop_last(), k);
        assert forall|j: int| 0 <= j < s.len() - 1 implies s.drop_last()[j] == s[j] by {}
    }
}

/// The first position holding `k` is determined by the names alone.
pub proof fn lemma_key_index_at<V>(s: Seq<(Seq<char>, V)>, k: Seq<char>, i: int)
    requires
        0 <= i < s.len(),
        s[i].0 == k,
        forall|j: int| 0 <= j < i ==> s[j].0 != k,
    ensures
        key_index(s, k) == i,
{
    lemma_key_index(s, k);
}

/// A name that occurs nowhere has position -1.
pub proof fn lemma_key_index_absent<V>(s: Seq<(Seq<char>, V)>, k: Seq<char>)
    requires
        forall|j: int| 0 <= j < s.len() ==> s[j].0 != k,
    ensures
        key_index(s, k) == -1,
{
    lemma_key_index(s, k);
}

/// Positions depend only on the names, not on the values.
pub proof fn lemma_key_index_same_names<V, W>(s: Seq<(Seq<char>, V)>, t: Seq<(Seq<char>, W)>, k: Seq<char>)
    requires
        s.len() == t.len(),
        forall|j: int| 0 <= j < s.len() ==> s[j].0 == t[j].0,
    ensures
        key_index(s, k) == key_index(t, k),
{
    lemma_key_index(s, k);
    lemma_key_index(t, k);
    let a = key_index(s, k);
    let b = key_index(t, k);
    if a >= 0 {
        lemma_key_index_at(t, k, a);
    } else {
        lemma_key_index_absent(t, k);
    }
}

/// Map operations only look at the names: applying them before or after a
/// change of the values gives the same names.
pub proof fn lemma_insert_names<V, W>(s: Seq<(Seq<char>, V)>, t: Seq<(Seq<char>, W)>, k: Seq<char>, v: V, w: W)
    requires
        s.len() == t.len(),
        forall|j: int| 0 <= j < s.len() ==> s[j].0 == t[j].0,
    ensures
        key_index(s, k) == key_index(t, k),
        insert_key(s, k, v).len() == insert_key(t, k, w).len(),
        forall|j: int| 0 <= j < insert_key(s, k, v).len() ==> insert_key(s, k, v)[j].0 == insert_key(t, k, w)[j].0,
        set_existing(s, k, v).len() == set_existing(t, k, w).len(),
        forall|j: int| 0 <= j < set_existing(s, k, v).len() ==> set_existing(s, k, v)[j].0 == set_existing(t, k, w)[j].0,
{
    lemma_key_index_same_names(s, t, k);
    lemma_key_index(s, k);
}

/// Setting an existing name changes no name.
pub proof fn lemma_set_existing_names<V>(s: Seq<(Seq<char>, V)>, k: Seq<char>, v: V)
    ensures
        set_existing(s, k, v).len() == s.len(),
        forall|j: int| 0 <= j < s.len() ==> set_existing(s, k, v)[j].0 == s[j].0,
        forall|k2: Seq<char>| key_index(set_existing(s, k, v), k2) == key_index(s, k2),
{
    lemma_key_index(s, k);
    assert forall|k2: Seq<char>| key_index(set_existing(s, k, v), k2) == key_index(s, k2) by {
        lemma_key_index_same_names(set_existing(s, k, v), s, k2);
    }
}

/// Inserting keeps the names distinct.
pub proof fn lemma_insert_distinct<V>(s: Seq<(Seq<char>, V)>, k: Seq<char>, v: V)
    requires
        distinct_keys(s),
    ensures
        distinct_keys(insert_key(s, k, v)),
        has_key(insert_key(s, k, v), k),
        lookup(insert_key(s, k, v), k) == Some(v),
{
    lemma_key_index(s, k);
    let t = insert_key(s, k, v);
    if key_index(s, k) >= 0 {
        lemma_key_index_same_names(s, t, k);
    } else {
        lemma_key_index_at(t, k, s.len() as int);
    }
    lemma_key_index(t, k);
}

/// The position of the first pair named `k`.
pub fn find_key<V>(v: &Vec<(String, V)>, k: &str) -> (r: Option<usize>)
    ensures
        match r {
            Some(i) => i < v@.len() && i == key_index(kv(v@), k@),
            None => key_index(kv(v@), k@) == -1,
        },
{
    let mut i: usize = 0;
    while i < v.len()
        invariant
            i <= v.len(),
            forall|j: int| 0 <= j < i ==> #[trigger] kv(v@)[j].0 != k@,
        decreases v.len() - i,
    {
        if str_eq(v[i].0.as_str(), k) {
            proof {
                lemma_key_index_at(kv(v@), k@, i as int);
            }
            return Some(i);
        }
        i += 1;
    }
    proof {
        lemma_key_index_absent(kv(v@), k@);
    }
    None
}

/// Map insertion into a vector of pairs.
pub fn insert_pair<V>(v: &mut Vec<(String, V)>, k: String, val: V)
    ensures
        kv(final(v)@) == insert_key(kv(old(v)@), k@, val),
{
    match find_key(v, k.as_str()) {
        Some(i) => {
            let ghost old_v = v@;
            let old_pair = v.remove(i);
            v.insert(i, (old_pair.0, val));
            assert(kv(v@) =~= insert_key(kv(old_v), k@, val));
        },
        None => {
            let ghost old_v = v@;
            v.push((k, val));
            assert(kv(v@) =~= insert_key(kv(old_v), k@, val));
        },
    }
}

} // verus!
