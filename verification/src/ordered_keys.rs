//! Ordered access to maps keyed by price keys.
use std::collections::BTreeMap;
use vstd::prelude::*;
use vstd::std_specs::btree::increasing_seq;
use vstd::std_specs::cmp::OrdSpec;

verus! {

broadcast use vstd::laws_cmp::group_laws_cmp;

/// The smallest and the largest key of a map, or `None` for an empty map.
pub fn key_bounds<V>(m: &BTreeMap<u64, V>) -> (r: Option<(u64, u64)>)
    ensures
        r is None <==> m@.dom().is_empty(),
        r matches Some((lo, hi)) ==> m@.contains_key(lo) && m@.contains_key(hi),
        r matches Some((lo, hi)) ==> forall|k: u64| m@.contains_key(k) ==> lo <= k && k <= hi,
{
    let mut lo: Option<u64> = None;
    let mut hi: u64 = 0;
    for k in it: m.keys()
        invariant
            it.seq().unref().to_set() == m@.dom(),
            increasing_seq(it.seq()),
            lo is None <==> it.index() == 0,
            lo matches Some(l) ==> l == *it.seq()[0] && hi == *it.seq()[it.index() - 1],
            lo matches Some(l) ==> forall|j: int|
                0 <= j < it.index() ==> l <= #[trigger] *it.seq()[j] <= hi,
            lo matches Some(l) ==> m@.contains_key(l) && m@.contains_key(hi),
        ensures
            lo is None ==> m@.dom().is_empty(),
    {
        proof {
            let i = it.index();
            assert(vstd::laws_cmp::obeys_cmp::<&u64>());
            assert(i < it.seq().len());
            assert(*k == *it.seq()[i]);
            if i > 0 {
                assert(OrdSpec::cmp_spec(&it.seq()[i - 1], &it.seq()[i]) is Less);
            }
            assert(it.seq().unref()[i] == *it.seq()[i]);
            assert(it.seq().unref().to_set().contains(*it.seq()[i]));
        }
        if lo.is_none() {
            lo = Some(*k);
        }
        hi = *k;
    }
    proof {
        if lo is Some {
            assert(m@.contains_key(lo->0));
        }
    }
    match lo {
        None => None,
        Some(l) => Some((l, hi)),
    }
}

/// Every entry of a map, in increasing key order.
pub fn entries_in_order<V: Copy>(m: &BTreeMap<u64, V>) -> (r: Vec<(u64, V)>)
    ensures
        r@.len() == m@.len(),
        forall|i: int| 0 <= i < r@.len() ==> #[trigger] m@.contains_key(r@[i].0) && m@[r@[i].0] == r@[i].1,
        forall|i: int, j: int| 0 <= i < j < r@.len() ==> r@[i].0 < r@[j].0,
{
    let mut out: Vec<(u64, V)> = Vec::new();
    for kv in it: m.iter()
        invariant
            it.seq().len() == m@.dom().len(),
            increasing_seq(it.seq().map_values(|kv: (&u64, &V)| *kv.0)),
            forall|i: int| 0 <= i < it.seq().len() ==>
                #[trigger] m@.contains_key(*it.seq()[i].0) && m@[*it.seq()[i].0] == *it.seq()[i].1,
            out@.len() == it.index(),
            forall|i: int| 0 <= i < it.index() ==>
                #[trigger] out@[i] == (*it.seq()[i].0, *it.seq()[i].1),
            forall|i: int, j: int| 0 <= i < j < out@.len() ==> out@[i].0 < out@[j].0,
        ensures
            out@.len() == m@.dom().len(),
            forall|i: int| 0 <= i < out@.len() ==>
                #[trigger] out@[i] == (*it.seq()[i].0, *it.seq()[i].1),
            forall|i: int, j: int| 0 <= i < j < out@.len() ==> out@[i].0 < out@[j].0,
    {
        proof {
            let n = it.index();
            let ks = it.seq().map_values(|kv: (&u64, &V)| *kv.0);
            assert(n < it.seq().len());
            assert(vstd::laws_cmp::obeys_cmp::<u64>());
            assert forall|i: int| 0 <= i < n implies out@[i].0 < *kv.0 by {
                assert(OrdSpec::cmp_spec(&ks[i], &ks[n]) is Less);
            }
        }
        out.push((*kv.0, *kv.1));
    }
    out
}

} // verus!
