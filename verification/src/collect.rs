//! The contents of hash tables as vectors.

use std::collections::{HashMap, HashSet};
use vstd::prelude::*;
use vstd::std_specs::hash::obeys_key_model;
use vstd::std_specs::iter::IteratorSpec;
use crate::model::lists;
use crate::types::ProcId;

verus! {

/// Appending `x` to `s` adds `x` and nothing else.
pub(crate) proof fn lemma_push<K>(s: Seq<K>, x: K)
    ensures
        forall|k: K| #[trigger] s.push(x).contains(k) <==> s.contains(k) || k == x,
        s.no_duplicates() && !s.contains(x) ==> s.push(x).no_duplicates(),
{
    assert forall|k: K| #[trigger] s.push(x).contains(k) <==> s.contains(k) || k == x by {
        if s.contains(k) {
            let i = choose|i: int| 0 <= i < s.len() && s[i] == k;
            assert(s.push(x)[i] == k);
        }
        assert(s.push(x)[s.len() as int] == x);
    }
}

/// A step through a sequence without repetition meets an element not met before.
pub(crate) proof fn lemma_step<K>(s: Seq<K>, i: int)
    requires
        0 <= i < s.len(),
        s.no_duplicates(),
    ensures
        !s.take(i).contains(s[i]),
        forall|k: K| #[trigger] s.take(i + 1).contains(k) <==> s.take(i).contains(k) || k == s[i],
        s.contains(s[i]),
{
    s.lemma_take_succ_push(i);
    lemma_push(s.take(i), s[i]);
}

/// The elements of `a + b` are those of `a` and of `b`.
pub(crate) proof fn lemma_concat<K>(a: Seq<K>, b: Seq<K>)
    ensures
        forall|k: K| #[trigger] (a + b).contains(k) <==> a.contains(k) || b.contains(k),
        a.no_duplicates() && b.no_duplicates() && (forall|k: K|
            !(#[trigger] a.contains(k) && b.contains(k))) ==> (a + b).no_duplicates(),
{
    assert forall|k: K| #[trigger] (a + b).contains(k) <==> a.contains(k) || b.contains(k) by {
        if a.contains(k) {
            let i = choose|i: int| 0 <= i < a.len() && a[i] == k;
            assert((a + b)[i] == k);
        }
        if b.contains(k) {
            let i = choose|i: int| 0 <= i < b.len() && b[i] == k;
            assert((a + b)[a.len() + i] == k);
        }
    }
    if a.no_duplicates() && b.no_duplicates() && (forall|k: K|
        !(#[trigger] a.contains(k) && b.contains(k))) {
        assert forall|i: int, j: int| 0 <= i < a.len() && 0 <= j < b.len() implies a[i] != b[j] by {
            assert(a.contains(a[i]));
            assert(b.contains(b[j]));
        }
        vstd::seq_lib::lemma_no_dup_in_concat(a, b);
    }
}

/// The keys of `m`.
pub(crate) fn keys_of<K: Copy, V>(m: &HashMap<K, V>) -> (keys: Vec<K>)
    requires
        obeys_key_model::<K>(),
    ensures
        lists(keys@, m@.dom()),
{
    let mut keys: Vec<K> = Vec::new();
    for k in it: m.keys()
        invariant
            keys@ == it.seq().unref().take(it.index()),
    {
        keys.push(*k);
    }
    proof {
        let all = m.keys().remaining().unref();
        assert(keys@ == all);
        assert forall|k: K| #[trigger] keys@.contains(k) <==> m@.dom().contains(k) by {
            assert(all.to_set().contains(k) <==> m@.dom().contains(k));
        }
    }
    keys
}

/// The elements of `s`.
pub(crate) fn items_of<K: Copy>(s: &HashSet<K>) -> (items: Vec<K>)
    requires
        obeys_key_model::<K>(),
    ensures
        lists(items@, s@),
{
    let mut items: Vec<K> = Vec::new();
    for k in it: s.iter()
        invariant
            items@ == it.seq().unref().take(it.index()),
    {
        items.push(*k);
    }
    proof {
        let all = s.iter().remaining().unref();
        assert(items@ == all);
        assert forall|k: K| #[trigger] items@.contains(k) <==> s@.contains(k) by {
            assert(all.to_set().contains(k) <==> s@.contains(k));
        }
    }
    items
}

/// The process ids whose numbers are in `s`.
pub(crate) fn ids_of(s: &HashSet<u32>) -> (ids: Vec<ProcId>)
    ensures
        lists(ids@, Set::new(|p: ProcId| s@.contains(p.0))),
{
    let items: Vec<u32> = items_of(s);
    let mut ids: Vec<ProcId> = Vec::new();
    for i in 0..items.len()
        invariant
            ids@ == items@.take(i as int).map_values(|c: u32| ProcId(c)),
    {
        ids.push(ProcId(items[i]));
    }
    proof {
        items@.lemma_take_len();
        assert forall|p: ProcId| #[trigger] ids@.contains(p) <==> s@.contains(p.0) by {
            if items@.contains(p.0) {
                let i = choose|i: int| 0 <= i < items@.len() && items@[i] == p.0;
                assert(ids@[i] == p);
            }
            if ids@.contains(p) {
                let i = choose|i: int| 0 <= i < ids@.len() && ids@[i] == p;
                assert(items@[i] == p.0);
            }
        }
    }
    ids
}

} // verus!
