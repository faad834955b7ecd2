use vstd::prelude::*;
use std::collections::HashMap;
use std::hash::Hash;
use crate::distance::{default_is_fixed, default_value, Distance};

verus! {

broadcast use vstd::std_specs::hash::group_hash_axioms;

/// The distance the entry of `a` under key `k` contributes: to the entry of
/// `b` under `k`, or to `d` when `b` has none.
pub open spec fn entry_distance<K, V: Distance>(a: Map<K, V>, b: Map<K, V>, d: V, k: K) -> int {
    if b.contains_key(k) {
        a[k].spec_distance(&b[k])
    } else {
        a[k].spec_distance(&d)
    }
}

/// Whether that distance is defined.
pub open spec fn entry_distance_defined<K, V: Distance>(a: Map<K, V>, b: Map<K, V>, d: V, k: K) -> bool {
    if b.contains_key(k) {
        a[k].spec_distance_defined(&b[k])
    } else {
        a[k].spec_distance_defined(&d)
    }
}

/// Adds the distance of entry `k` to a running sum.
pub open spec fn add_entry<K, V: Distance>(a: Map<K, V>, b: Map<K, V>, d: V) -> spec_fn(int, K) -> int {
    |acc: int, k: K| acc + entry_distance(a, b, d, k)
}

/// The sum of the entry distances over the keys in `keys`.
pub open spec fn entries_sum<K, V: Distance>(a: Map<K, V>, b: Map<K, V>, d: V, keys: Set<K>) -> int {
    keys.fold(0int, add_entry(a, b, d))
}

proof fn lemma_add_entry_commutes<K, V: Distance>(a: Map<K, V>, b: Map<K, V>, d: V)
    ensures
        vstd::set::fold::is_fun_commutative(add_entry(a, b, d)),
{
    let f = add_entry(a, b, d);
    assert forall|k1: K, k2: K, acc: int| #[trigger] f(f(acc, k2), k1) == f(f(acc, k1), k2) by {}
}

/// The distance between two maps: the sum, over the keys of the first, of
/// the distance from its value to the second map's value under that key
/// (to the default value where the second has none). Keys only the second
/// map has add nothing.
impl<K: Eq + Hash, V: Distance + Default> Distance for HashMap<K, V> {
    open spec fn spec_distance(&self, other: &Self) -> int {
        entries_sum(self@, other@, default_value::<V>(), self@.dom())
    }

    open spec fn spec_distance_defined(&self, other: &Self) -> bool {
        &&& vstd::std_specs::hash::obeys_key_model::<K>()
        &&& default_is_fixed::<V>()
        &&& forall|k: K| #[trigger] self@.contains_key(k) ==> entry_distance_defined(self@, other@, default_value::<V>(), k)
        &&& forall|keys: Set<K>| #[trigger] keys.subset_of(self@.dom())
            ==> 0 <= entries_sum(self@, other@, default_value::<V>(), keys) <= usize::MAX
    }

    fn distance(&self, other: &Self) -> (r: usize) {
        let d = V::default();
        let ghost a = self@;
        let ghost b = other@;
        proof {
            assert(call_ensures(V::default, (), d));
            assert(d == default_value::<V>());
            lemma_add_entry_commutes(a, b, d);
        }
        let ghost f = add_entry(a, b, d);
        let ghost mut done: Set<K> = Set::empty();
        let mut total: usize = 0;
        proof {
            vstd::set::fold::lemma_fold_empty(0int, f);
        }
        for (key, value) in it: self.iter()
            invariant
                a == self@,
                b == other@,
                d == default_value::<V>(),
                f == add_entry(a, b, d),
                vstd::set::fold::is_fun_commutative(f),
                self.spec_distance_defined(other),
                it.seq().len() == a.dom().len(),
                forall|i: int| 0 <= i < it.seq().len() ==> a.contains_key(*(#[trigger] it.seq()[i]).0) && a[*it.seq()[i].0] == *it.seq()[i].1,
                forall|k: K| #[trigger] a.contains_key(k) ==> exists|i: int| 0 <= i < it.seq().len() && *(#[trigger] it.seq()[i]).0 == k,
                it.seq().no_duplicates(),
                done == Set::new(|k: K| exists|j: int| 0 <= j < it.index() && *(#[trigger] it.seq()[j]).0 == k),
                done.finite(),
                done.subset_of(a.dom()),
                it.index() == it.seq().len() ==> done == a.dom(),
                total == done.fold(0int, f),
        {
            let ghost idx = it.index();
            assert(it.seq()[idx] == (key, value));
            proof {
                if done.contains(*key) {
                    let j = choose|j: int| 0 <= j < idx && *(#[trigger] it.seq()[j]).0 == *key;
                    assert(a[*key] == *it.seq()[j].1);
                    assert(it.seq()[j] == it.seq()[idx]);
                    assert(false);
                }
            }
            assert(a.contains_key(*key));
            let step = match other.get(key) {
                Some(o) => value.distance(o),
                None => value.distance(&d),
            };
            proof {
                let next = done.insert(*key);
                vstd::set::fold::lemma_fold_insert(done, 0int, f, *key);
                assert(next.subset_of(a.dom()));
                assert(0 <= entries_sum(a, b, d, next) <= usize::MAX);
                assert(step == entry_distance(a, b, d, *key));
            }
            total = total + step;
            proof {
                let ks_new = Set::new(|k: K| exists|j: int| 0 <= j < idx + 1 && *(#[trigger] it.seq()[j]).0 == k);
                assert(ks_new =~= done.insert(*key)) by {
                    assert forall|k: K| ks_new.contains(k) implies done.insert(*key).contains(k) by {
                        let j = choose|j: int| 0 <= j < idx + 1 && *(#[trigger] it.seq()[j]).0 == k;
                        if j < idx { assert(done.contains(k)); }
                    }
                    assert forall|k: K| done.insert(*key).contains(k) implies ks_new.contains(k) by {
                        if k == *key { assert(*it.seq()[idx].0 == k); }
                        else {
                            let j = choose|j: int| 0 <= j < idx && *(#[trigger] it.seq()[j]).0 == k;
                            assert(0 <= j < idx + 1);
                        }
                    }
                }
                done = done.insert(*key);
            }
            assert(idx + 1 == it.seq().len() ==> done =~= a.dom()) by {
                if idx + 1 == it.seq().len() {
                    assert forall|k: K| a.dom().contains(k) implies done.contains(k) by {
                        let i = choose|i: int| 0 <= i < it.seq().len() && *(#[trigger] it.seq()[i]).0 == k;
                        if i < idx {
                            assert(0 <= i < idx + 1);
                        }
                    }
                }
            }
        }
        total
    }
}

} // verus!
