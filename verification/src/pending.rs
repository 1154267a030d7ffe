//! Maps of pending commands keyed by grid index, and draining them.
use vstd::prelude::*;
use std::collections::HashMap;
use vstd::std_specs::hash::{axiom_spec_keys_iter, spec_keys_iter};
use vstd::std_specs::iter::IteratorSpec;

verus! {

broadcast use vstd::std_specs::hash::group_hash_axioms;

/// `vs` lists the values of `m`, in the order of the distinct keys `ks`, which are exactly the
/// keys of `m`.
pub open spec fn drained_as<V>(m: Map<u32, V>, ks: Seq<u32>, vs: Seq<V>) -> bool {
    &&& ks.no_duplicates()
    &&& ks.to_set() == m.dom()
    &&& ks.len() == vs.len()
    &&& forall|i: int| 0 <= i < ks.len() ==> vs[i] == m[#[trigger] ks[i]]
}

/// Removes every entry of `m` and returns the values, in the order the map is walked.
pub fn drain_values<V>(m: &mut HashMap<u32, V>) -> (vs: Vec<V>)
    ensures
        exists|ks: Seq<u32>| drained_as(old(m)@, ks, vs@),
        final(m)@ == Map::<u32, V>::empty(),
{
    let ghost all = spec_keys_iter(&*m).remaining();
    proof {
        axiom_spec_keys_iter(&*m);
    }
    let mut keys: Vec<u32> = Vec::new();
    for k in it: m.keys()
        invariant
            keys@.len() == it.index(),
            it.seq() == all,
            forall|i: int| 0 <= i < it.index() ==> keys@[i] == *it.seq()[i],
    {
        keys.push(*k);
    }
    proof {
        assert(keys@ =~= all.unref());
    }
    let ghost start = m@;
    let mut vs: Vec<V> = Vec::new();
    let mut i: usize = 0;
    while i < keys.len()
        invariant
            i <= keys@.len(),
            keys@.no_duplicates(),
            keys@.to_set() == start.dom(),
            vs@.len() == i,
            forall|j: int| 0 <= j < i ==> vs@[j] == start[#[trigger] keys@[j]],
            forall|k: u32|
                #![trigger m@.contains_key(k)]
                m@.contains_key(k) <==> start.contains_key(k) && !keys@.subrange(
                    0,
                    i as int,
                ).contains(k),
            forall|k: u32| #[trigger] m@.contains_key(k) ==> m@[k] == start[k],
        decreases keys@.len() - i,
    {
        let key = keys[i];
        assert(keys@.contains(key));
        assert(!keys@.subrange(0, i as int).contains(key));
        let v = m.remove(&key).unwrap();
        vs.push(v);
        let ghost before = keys@.subrange(0, i as int);
        let ghost after = keys@.subrange(0, i + 1);
        assert(after =~= before.push(key));
        assert forall|k: u32| after.contains(k) <==> before.contains(k) || k == key by {
            if after.contains(k) {
                let j = choose|j: int| 0 <= j < after.len() && after[j] == k;
                if j < before.len() {
                    assert(before[j] == k);
                }
            }
            if before.contains(k) {
                let j = choose|j: int| 0 <= j < before.len() && before[j] == k;
                assert(after[j] == k);
            }
            if k == key {
                assert(after[i as int] == k);
            }
        }
        i = i + 1;
    }
    proof {
        assert(keys@.subrange(0, i as int) =~= keys@);
        assert forall|k: u32| !m@.contains_key(k) by {
            if start.contains_key(k) {
                assert(keys@.to_set().contains(k));
            }
        }
        assert(m@ =~= Map::<u32, V>::empty());
        assert(drained_as(start, keys@, vs@));
    }
    vs
}

} // verus!
