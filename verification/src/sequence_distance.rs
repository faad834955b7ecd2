use vstd::prelude::*;
use vstd::relations::{sorted_by, total_ordering};
use vstd::std_specs::cmp::{OrdSpec, PartialEqSpec, PartialOrdSpec};
use std::cmp::Ordering;
use crate::distance::{default_is_fixed, default_value, position, Distance};

verus! {

broadcast use vstd::seq_lib::group_to_multiset_ensures;

/// `a` comes no later than `b` in the type's order.
pub open spec fn ordered_le<V: Ord>() -> spec_fn(V, V) -> bool {
    |a: V, b: V| a.cmp_spec(&b) != Ordering::Greater
}

/// What the distance between sequences relies on: the order is total and
/// agrees with equality, cloning gives an equal value, and `default` always
/// gives the same value.
pub open spec fn well_behaved<V: Ord + Default + Clone>() -> bool {
    &&& vstd::laws_cmp::obeys_cmp::<V>()
    &&& vstd::laws_eq::obeys_concrete_eq::<V>()
    &&& forall|a: V, b: V| #[trigger] cloned::<V>(a, b) ==> a == b
    &&& default_is_fixed::<V>()
}

proof fn lemma_order<V: Ord + Default + Clone>()
    requires
        well_behaved::<V>(),
    ensures
        total_ordering(ordered_le::<V>()),
        V::obeys_cmp_spec(),
        forall|x: V, y: V| #[trigger] x.cmp_spec(&y) != Ordering::Less ==> ordered_le::<V>()(y, x),
        forall|x: V, y: V| #[trigger] x.cmp_spec(&y) == Ordering::Less ==> ordered_le::<V>()(x, y),
{
    reveal(vstd::laws_cmp::obeys_partial_cmp_spec_properties);
    reveal(vstd::laws_cmp::obeys_cmp_partial_ord);
    reveal(vstd::laws_cmp::obeys_cmp_ord);
    reveal(vstd::laws_eq::obeys_concrete_eq);
    reveal(vstd::laws_eq::obeys_eq_spec_properties);
    let le = ordered_le::<V>();
    assert forall|x: V, y: V| #[trigger] x.cmp_spec(&y) != Ordering::Less implies le(y, x) by {
        assert(x.partial_cmp_spec(&y) == Some(x.cmp_spec(&y)));
        assert(y.partial_cmp_spec(&x) == Some(y.cmp_spec(&x)));
    }
    assert forall|x: V| #[trigger] le(x, x) by {
        assert(x.partial_cmp_spec(&x) == Some(x.cmp_spec(&x)));
        assert(x.eq_spec(&x));
    }
    assert forall|x: V, y: V| #[trigger] le(x, y) && #[trigger] le(y, x) implies x == y by {
        assert(x.partial_cmp_spec(&y) == Some(x.cmp_spec(&y)));
        assert(y.partial_cmp_spec(&x) == Some(y.cmp_spec(&x)));
    }
    assert forall|x: V, y: V, z: V| #[trigger] le(x, y) && #[trigger] le(y, z) implies le(x, z) by {
        assert(x.partial_cmp_spec(&y) == Some(x.cmp_spec(&y)));
        assert(y.partial_cmp_spec(&z) == Some(y.cmp_spec(&z)));
        assert(x.partial_cmp_spec(&z) == Some(x.cmp_spec(&z)));
        if x.cmp_spec(&y) == Ordering::Equal {
            assert(x.eq_spec(&y));
        } else if y.cmp_spec(&z) == Ordering::Equal {
            assert(y.eq_spec(&z));
        }
    }
    assert forall|x: V, y: V| #[trigger] le(x, y) || le(y, x) by {
        assert(x.partial_cmp_spec(&y) == Some(x.cmp_spec(&y)));
        assert(y.partial_cmp_spec(&x) == Some(y.cmp_spec(&x)));
    }
    assert(vstd::relations::reflexive(le));
    assert(vstd::relations::antisymmetric(le));
    assert(vstd::relations::transitive(le));
    assert(vstd::relations::strongly_connected(le));
}

/// A sorted copy of `v`.
fn sorted_copy<V: Ord + Default + Clone>(v: &Vec<V>) -> (r: Vec<V>)
    requires
        well_behaved::<V>(),
    ensures
        r@ == v@.sort_by(ordered_le::<V>()),
{
    proof {
        lemma_order::<V>();
    }
    let ghost le = ordered_le::<V>();
    let mut out: Vec<V> = Vec::new();
    let mut k: usize = 0;
    while k < v.len()
        invariant
            k <= v.len(),
            well_behaved::<V>(),
            le == ordered_le::<V>(),
            total_ordering(le),
            V::obeys_cmp_spec(),
            forall|x: V, y: V| #[trigger] x.cmp_spec(&y) != Ordering::Less ==> le(y, x),
            forall|x: V, y: V| #[trigger] x.cmp_spec(&y) == Ordering::Less ==> le(x, y),
            sorted_by(out@, le),
            out@.to_multiset() == v@.take(position(k)).to_multiset(),
        decreases v.len() - k,
    {
        let x = v[k].clone();
        assert(cloned::<V>(v@[position(k)], x));
        let mut j: usize = 0;
        loop
            invariant
                j <= out.len(),
                V::obeys_cmp_spec(),
                forall|p: V, q: V| #[trigger] p.cmp_spec(&q) != Ordering::Less ==> le(q, p),
                forall|a: int| 0 <= a < j ==> le(#[trigger] out@[a], x),
            ensures
                j <= out.len(),
                forall|a: int| 0 <= a < j ==> le(#[trigger] out@[a], x),
                j < out.len() ==> x.cmp_spec(&out@[position(j)]) == Ordering::Less,
            decreases out.len() - j,
        {
            if j >= out.len() {
                break;
            }
            match x.cmp(&out[j]) {
                Ordering::Less => {
                    break;
                },
                _ => {},
            }
            j = j + 1;
        }
        let ghost before = out@;
        proof {
            if j < before.len() {
                assert(le(x, before[position(j)]));
            }
        }
        out.insert(j, x);
        proof {
            assert(out@ == before.insert(position(j), x));
            assert forall|a: int, b: int| 0 <= a < b < out@.len() implies #[trigger] le(out@[a], out@[b]) by {
                if b < j {
                    assert(le(before[a], before[b]));
                } else if b == j {
                    assert(le(before[a], x));
                } else if a == j {
                    assert(le(x, before[position(j)]));
                    if b - 1 > j {
                        assert(le(before[position(j)], before[b - 1]));
                    }
                } else if a < j {
                    assert(le(before[a], x));
                    assert(le(x, before[position(j)]));
                    assert(le(before[position(j)], before[b - 1]) || b - 1 == j);
                } else {
                    assert(le(before[a - 1], before[b - 1]));
                }
            }
            assert(v@.take(position(k) + 1) == v@.take(position(k)).push(v@[position(k)]));
        }
        k = k + 1;
    }
    proof {
        assert(v@.take(position(v.len())) == v@);
        v@.lemma_sort_by_ensures(le);
        vstd::seq_lib::lemma_sorted_unique(out@, v@.sort_by(le), le);
    }
    out
}

/// The distance between the elements at position `i` of two sorted
/// sequences, a missing element standing as `d`.
pub open spec fn paired_term<V: Distance>(a: Seq<V>, b: Seq<V>, d: V, i: int) -> int {
    if i < a.len() && i < b.len() {
        a[i].spec_distance(&b[i])
    } else if i < a.len() {
        a[i].spec_distance(&d)
    } else {
        d.spec_distance(&b[i])
    }
}

/// Whether that distance is defined.
pub open spec fn paired_term_defined<V: Distance>(a: Seq<V>, b: Seq<V>, d: V, i: int) -> bool {
    if i < a.len() && i < b.len() {
        a[i].spec_distance_defined(&b[i])
    } else if i < a.len() {
        a[i].spec_distance_defined(&d)
    } else {
        d.spec_distance_defined(&b[i])
    }
}

/// The sum of the first `k` paired distances.
pub open spec fn paired_sum<V: Distance>(a: Seq<V>, b: Seq<V>, d: V, k: nat) -> int
    decreases k,
{
    if k == 0 {
        0
    } else {
        paired_sum(a, b, d, (k - 1) as nat) + paired_term(a, b, d, k - 1)
    }
}

/// The longer of two lengths.
pub open spec fn longer(a: nat, b: nat) -> nat {
    if a >= b { a } else { b }
}

/// The distance between two collections of values: sort both, pair their
/// elements in order (a missing element counts as the default value), and add
/// up the distances of the pairs.
impl<V: Distance + Ord + Default + Clone> Distance for Vec<V> {
    open spec fn spec_distance(&self, other: &Self) -> int {
        paired_sum(
            self@.sort_by(ordered_le::<V>()),
            other@.sort_by(ordered_le::<V>()),
            default_value::<V>(),
            longer(self@.len(), other@.len()),
        )
    }

    open spec fn spec_distance_defined(&self, other: &Self) -> bool {
        let a = self@.sort_by(ordered_le::<V>());
        let b = other@.sort_by(ordered_le::<V>());
        let n = longer(self@.len(), other@.len());
        &&& well_behaved::<V>()
        &&& forall|i: int| 0 <= i < n ==> #[trigger] paired_term_defined(a, b, default_value::<V>(), i)
        &&& forall|k: nat| k <= n ==> #[trigger] paired_sum(a, b, default_value::<V>(), k) <= usize::MAX
    }

    fn distance(&self, other: &Self) -> (r: usize) {
        let a = sorted_copy(self);
        let b = sorted_copy(other);
        let d = V::default();
        proof {
            v_len_sort(self@);
            v_len_sort(other@);
            assert(call_ensures(V::default, (), d));
            assert(d == default_value::<V>());
        }
        let n = if a.len() >= b.len() { a.len() } else { b.len() };
        let mut total: usize = 0;
        let mut i: usize = 0;
        while i < n
            invariant
                i <= n,
                n == longer(a@.len(), b@.len()),
                a@ == self@.sort_by(ordered_le::<V>()),
                b@ == other@.sort_by(ordered_le::<V>()),
                d == default_value::<V>(),
                self.spec_distance_defined(other),
                a@.len() == self@.len(),
                b@.len() == other@.len(),
                total == paired_sum(a@, b@, d, i as nat),
            decreases n - i,
        {
            assert(paired_term_defined(a@, b@, d, i as int));
            assert(paired_sum(a@, b@, d, (i + 1) as nat) <= usize::MAX);
            let t = if i < a.len() && i < b.len() {
                a[i].distance(&b[i])
            } else if i < a.len() {
                a[i].distance(&d)
            } else {
                d.distance(&b[i])
            };
            total = total + t;
            i = i + 1;
        }
        total
    }
}

proof fn v_len_sort<V: Ord + Default + Clone>(s: Seq<V>)
    requires
        well_behaved::<V>(),
    ensures
        s.sort_by(ordered_le::<V>()).len() == s.len(),
{
    lemma_order::<V>();
    s.lemma_sort_by_ensures(ordered_le::<V>());
    assert(s.to_multiset().len() == s.len());
    assert(s.sort_by(ordered_le::<V>()).to_multiset().len() == s.sort_by(ordered_le::<V>()).len());
}

proof fn lemma_paired_sum_symmetric<V: Distance>(a: Seq<V>, b: Seq<V>, d: V, k: nat)
    requires
        k <= longer(a.len(), b.len()),
        forall|x: V, y: V| #[trigger] x.spec_distance(&y) == y.spec_distance(&x),
    ensures
        paired_sum(a, b, d, k) == paired_sum(b, a, d, k),
    decreases k,
{
    if k > 0 {
        lemma_paired_sum_symmetric(a, b, d, (k - 1) as nat);
        let i = k - 1;
        if i < a.len() && i < b.len() {
            assert(a[i].spec_distance(&b[i]) == b[i].spec_distance(&a[i]));
        } else if i < a.len() {
            assert(a[i].spec_distance(&d) == d.spec_distance(&a[i]));
        } else {
            assert(d.spec_distance(&b[i]) == b[i].spec_distance(&d));
        }
    }
}

proof fn lemma_paired_sum_self<V: Distance>(a: Seq<V>, d: V, k: nat)
    requires
        k <= a.len(),
        forall|x: V| #[trigger] x.spec_distance(&x) == 0,
    ensures
        paired_sum(a, a, d, k) == 0,
    decreases k,
{
    if k > 0 {
        lemma_paired_sum_self(a, d, (k - 1) as nat);
        assert(a[k - 1].spec_distance(&a[k - 1]) == 0);
    }
}

/// The distance between two collections does not depend on which comes
/// first, when that holds of their elements.
pub proof fn law_sequence_distance_symmetric<V: Distance + Ord + Default + Clone>(a: Vec<V>, b: Vec<V>)
    requires
        well_behaved::<V>(),
        forall|x: V, y: V| #[trigger] x.spec_distance(&y) == y.spec_distance(&x),
    ensures
        a.spec_distance(&b) == b.spec_distance(&a),
{
    let sa = a@.sort_by(ordered_le::<V>());
    let sb = b@.sort_by(ordered_le::<V>());
    v_len_sort(a@);
    v_len_sort(b@);
    lemma_paired_sum_symmetric(sa, sb, default_value::<V>(), longer(a@.len(), b@.len()));
    assert(longer(a@.len(), b@.len()) == longer(b@.len(), a@.len()));
}

/// A collection is at distance zero from itself, when its elements are.
pub proof fn law_sequence_distance_to_itself<V: Distance + Ord + Default + Clone>(a: Vec<V>)
    requires
        well_behaved::<V>(),
        forall|x: V| #[trigger] x.spec_distance(&x) == 0,
    ensures
        a.spec_distance(&a) == 0,
{
    v_len_sort(a@);
    lemma_paired_sum_self(a@.sort_by(ordered_le::<V>()), default_value::<V>(), a@.len());
}

proof fn lemma_same_sorted<V: Ord + Default + Clone>(a: Vec<V>, c: Vec<V>)
    requires
        well_behaved::<V>(),
        a@.to_multiset() == c@.to_multiset(),
    ensures
        a@.sort_by(ordered_le::<V>()) == c@.sort_by(ordered_le::<V>()),
        a@.len() == c@.len(),
{
    lemma_order::<V>();
    let le = ordered_le::<V>();
    a@.lemma_sort_by_ensures(le);
    c@.lemma_sort_by_ensures(le);
    vstd::seq_lib::lemma_sorted_unique(a@.sort_by(le), c@.sort_by(le), le);
    assert(a@.to_multiset().len() == a@.len());
    assert(c@.to_multiset().len() == c@.len());
}

/// Collections are compared as multisets: reordering the elements of
/// either collection does not change their distance.
pub proof fn law_sequence_distance_ignores_order<V: Distance + Ord + Default + Clone>(a: Vec<V>, a2: Vec<V>, b: Vec<V>, b2: Vec<V>)
    requires
        well_behaved::<V>(),
        a@.to_multiset() == a2@.to_multiset(),
        b@.to_multiset() == b2@.to_multiset(),
    ensures
        a.spec_distance(&b) == a2.spec_distance(&b2),
{
    lemma_same_sorted(a, a2);
    lemma_same_sorted(b, b2);
}

} // verus!
