use vstd::prelude::*;
use std::collections::HashMap;

verus! {

broadcast use vstd::std_specs::hash::group_hash_axioms;

/// A remembered value and when it was learned. `time` is a key that orders
/// moments: a later moment has a larger key.
pub struct Memo<T: Clone> {
    pub value: T,
    pub time: u64,
}

impl<T: Clone> Clone for Memo<T> {
    /// A memo of the same moment, holding a clone of the value.
    fn clone(&self) -> (m: Self)
        ensures
            m.time == self.time,
            cloned::<T>(self.value, m.value),
    {
        Memo { value: self.value.clone(), time: self.time }
    }
}

impl<T: Clone> Memo<T> {
    /// Whether this memo was learned no later than `memory` (so `memory` may replace it).
    pub fn is_newer_than(&self, memory: &Memo<T>) -> (r: bool)
        ensures
            r == (self.time <= memory.time),
    {
        self.time <= memory.time
    }

    pub fn new(value: T, time: u64) -> (m: Self)
        ensures
            m.value == value,
            m.time == time,
    {
        Memo { value, time }
    }
}

/// What `target` holds for `key` once `source` has been shared into it: the
/// source's memo where the target has none or one learned no later,
/// otherwise its own.
pub open spec fn keeps_own<V: Clone>(old_target: Map<u64, Memo<V>>, source: Map<u64, Memo<V>>, key: u64) -> bool {
    old_target.contains_key(key) && old_target[key].time > source[key].time
}

/// Merges the memos of `source` into `target`, keeping for each key the
/// memo learned later (the one from `source` when both were learned at the
/// same moment).
pub fn share_memory_map<V: Clone>(target: &mut HashMap<u64, Memo<V>>, source: &HashMap<u64, Memo<V>>)
    ensures
        final(target)@.dom() == old(target)@.dom().union(source@.dom()),
        forall|k: u64| #[trigger] final(target)@.contains_key(k) && !source@.contains_key(k)
            ==> final(target)@[k] == old(target)@[k],
        forall|k: u64| #[trigger] source@.contains_key(k) && keeps_own(old(target)@, source@, k)
            ==> final(target)@[k] == old(target)@[k],
        forall|k: u64| #[trigger] source@.contains_key(k) && !keeps_own(old(target)@, source@, k)
            ==> final(target)@[k].time == source@[k].time && cloned::<V>(source@[k].value, final(target)@[k].value),
        (forall|a: V, b: V| #[trigger] cloned::<V>(a, b) ==> a == b) ==> forall|k: u64| #[trigger] source@.contains_key(k)
            && !keeps_own(old(target)@, source@, k) ==> final(target)@[k] == source@[k],
{
    let ghost old_target = target@;
    let ghost src = source@;
    let ghost mut done: Set<u64> = Set::empty();
    for (key, memory) in it: source.iter()
        invariant
            src == source@,
            it.seq().len() == src.dom().len(),
            forall|i: int| 0 <= i < it.seq().len() ==> src.contains_key(*(#[trigger] it.seq()[i]).0) && src[*it.seq()[i].0] == *it.seq()[i].1,
            forall|k: u64| #[trigger] src.contains_key(k) ==> exists|i: int| 0 <= i < it.seq().len() && *(#[trigger] it.seq()[i]).0 == k,
            it.seq().no_duplicates(),
            done == Set::new(|k: u64| exists|j: int| 0 <= j < it.index() && *(#[trigger] it.seq()[j]).0 == k),
            done.subset_of(src.dom()),
            it.index() == it.seq().len() ==> done == src.dom(),
            target@.dom() == old_target.dom().union(done),
            forall|k: u64| #[trigger] target@.contains_key(k) && !done.contains(k) ==> target@[k] == old_target[k],
            forall|k: u64| #[trigger] done.contains(k) && keeps_own(old_target, src, k) ==> target@[k] == old_target[k],
            forall|k: u64| #[trigger] done.contains(k) && !keeps_own(old_target, src, k)
                ==> target@[k].time == src[k].time && cloned::<V>(src[k].value, target@[k].value),
    {
        let ghost idx = it.index();
        let ghost before = target@;
        assert(it.seq()[idx] == (key, memory));
        proof {
            if done.contains(*key) {
                let j = choose|j: int| 0 <= j < idx && *(#[trigger] it.seq()[j]).0 == *key;
                assert(src[*key] == *it.seq()[j].1);
                assert(it.seq()[j] == it.seq()[idx]);
                assert(false);
            }
        }
        let replace = match target.get(key) {
            Some(target_memory) => target_memory.is_newer_than(memory),
            None => true,
        };
        if replace {
            let m = memory.clone();
            target.insert(*key, m);
        }
        proof {
            let ks_new = Set::new(|k: u64| exists|j: int| 0 <= j < idx + 1 && *(#[trigger] it.seq()[j]).0 == k);
            assert(ks_new =~= done.insert(*key)) by {
                assert forall|k: u64| ks_new.contains(k) implies done.insert(*key).contains(k) by {
                    let j = choose|j: int| 0 <= j < idx + 1 && *(#[trigger] it.seq()[j]).0 == k;
                    if j < idx { assert(done.contains(k)); }
                }
                assert forall|k: u64| done.insert(*key).contains(k) implies ks_new.contains(k) by {
                    if k == *key { assert(*it.seq()[idx].0 == k); }
                    else {
                        let j = choose|j: int| 0 <= j < idx && *(#[trigger] it.seq()[j]).0 == k;
                        assert(0 <= j < idx + 1);
                    }
                }
            }
            done = done.insert(*key);
        }
        assert(idx + 1 == it.seq().len() ==> done =~= src.dom()) by {
            if idx + 1 == it.seq().len() {
                assert forall|k: u64| src.dom().contains(k) implies done.contains(k) by {
                    let i = choose|i: int| 0 <= i < it.seq().len() && *(#[trigger] it.seq()[i]).0 == k;
                    if i < idx {
                        assert(0 <= i < idx + 1);
                    }
                }
            }
        }
    }
}

} // verus!
