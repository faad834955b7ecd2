use vstd::prelude::*;

verus! {

/// Whether the entity found at position `i` of a scan is reported as having
/// entered the radius: it was not inside at the last scan, or it was found
/// earlier in this same scan (its earlier sighting already took it off the
/// list of those that left).
pub open spec fn entered_at(previous: Seq<u64>, found: Seq<u64>, i: int) -> bool {
    !previous.contains(found[i]) || exists|j: int| 0 <= j < i && found[j] == found[i]
}

/// The entities reported as having entered, in the order they were found.
pub open spec fn entered_from(previous: Seq<u64>, found: Seq<u64>, k: nat) -> Seq<u64>
    decreases k,
{
    if k == 0 {
        Seq::empty()
    } else {
        let rest = entered_from(previous, found, (k - 1) as nat);
        if entered_at(previous, found, k - 1) {
            rest.push(found[k - 1])
        } else {
            rest
        }
    }
}

/// The entities of the last scan that this scan did not find, in the order
/// of the last scan.
pub open spec fn exited_from(previous: Seq<u64>, found: Seq<u64>) -> Seq<u64> {
    previous.filter(|e: u64| !found.contains(e))
}

/// One radar scan: given the entities inside the radius at the last scan
/// and those found inside it now, the entities that entered and the
/// entities that left.
pub fn scan_changes(previous: &Vec<u64>, found: &Vec<u64>) -> (r: (Vec<u64>, Vec<u64>))
    ensures
        r.0@ == entered_from(previous@, found@, found@.len()),
        r.1@ == exited_from(previous@, found@),
{
    let mut entered: Vec<u64> = Vec::new();
    let mut i: usize = 0;
    while i < found.len()
        invariant
            i <= found.len(),
            entered@ == entered_from(previous@, found@, i as nat),
        decreases found.len() - i,
    {
        let e = found[i];
        let mut inside = false;
        let mut p: usize = 0;
        while p < previous.len()
            invariant
                p <= previous.len(),
                inside == (exists|q: int| 0 <= q < p && previous@[q] == e),
            decreases previous.len() - p,
        {
            if previous[p] == e {
                inside = true;
            }
            p = p + 1;
        }
        let mut seen = false;
        let mut j: usize = 0;
        while j < i
            invariant
                j <= i,
                i < found.len(),
                e == found@[i as int],
                seen == (exists|q: int| 0 <= q < j && found@[q] == e),
            decreases i - j,
        {
            if found[j] == e {
                seen = true;
            }
            j = j + 1;
        }
        proof {
            assert(inside == previous@.contains(e)) by {
                if previous@.contains(e) {
                    let q = choose|q: int| 0 <= q < previous@.len() && previous@[q] == e;
                    assert(0 <= q < p);
                }
            }
        }
        if !inside || seen {
            entered.push(e);
        }
        i = i + 1;
    }

    let mut exited: Vec<u64> = Vec::new();
    let mut k: usize = 0;
    while k < previous.len()
        invariant
            k <= previous.len(),
            exited@ == previous@.take(k as int).filter(|e: u64| !found@.contains(e)),
        decreases previous.len() - k,
    {
        let e = previous[k];
        let mut still = false;
        let mut j: usize = 0;
        while j < found.len()
            invariant
                j <= found.len(),
                still == (exists|q: int| 0 <= q < j && found@[q] == e),
            decreases found.len() - j,
        {
            if found[j] == e {
                still = true;
            }
            j = j + 1;
        }
        proof {
            assert(still == found@.contains(e)) by {
                if found@.contains(e) {
                    let q = choose|q: int| 0 <= q < found@.len() && found@[q] == e;
                    assert(0 <= q < j);
                }
            }
            let pf = |x: u64| !found@.contains(x);
            assert(previous@.take(k as int + 1) == previous@.take(k as int).push(e));
            previous@.take(k as int).lemma_filter_push(e, pf);
        }
        if !still {
            exited.push(e);
        }
        k = k + 1;
    }
    proof {
        assert(previous@.take(previous@.len() as int) == previous@);
    }
    (entered, exited)
}

proof fn lemma_entered_from(previous: Seq<u64>, found: Seq<u64>, k: nat)
    requires
        k <= found.len(),
    ensures
        forall|e: u64| #[trigger] entered_from(previous, found, k).contains(e)
            ==> exists|i: int| 0 <= i < k && found[i] == e,
        forall|i: int| 0 <= i < k && !previous.contains(found[i])
            ==> #[trigger] entered_from(previous, found, k).contains(found[i]),
    decreases k,
{
    if k > 0 {
        lemma_entered_from(previous, found, (k - 1) as nat);
        let rest = entered_from(previous, found, (k - 1) as nat);
        let now = entered_from(previous, found, k);
        assert forall|e: u64| #[trigger] now.contains(e) implies exists|i: int| 0 <= i < k && found[i] == e by {
            if rest.contains(e) {
                let i = choose|i: int| 0 <= i < k - 1 && found[i] == e;
                assert(0 <= i < k && found[i] == e);
            } else {
                let j = choose|j: int| 0 <= j < now.len() && now[j] == e;
                assert(j == rest.len());
                assert(found[k - 1] == e);
            }
        }
        assert forall|i: int| 0 <= i < k && !previous.contains(found[i]) implies #[trigger] now.contains(found[i]) by {
            if i < k - 1 {
                assert(rest.contains(found[i]));
                let j = choose|j: int| 0 <= j < rest.len() && rest[j] == found[i];
                if entered_at(previous, found, k - 1) {
                    assert(now == rest.push(found[k - 1]));
                } else {
                    assert(now == rest);
                }
                assert(now[j] == found[i]);
            } else {
                assert(now[rest.len() as int] == found[i]);
            }
        }
    }
}

/// A scan accounts for every entity: one reported as having left was inside
/// at the last scan and is not found now (and each such entity is
/// reported); each entity found now was inside before or is reported as
/// having entered; and only entities found now are reported as having
/// entered.
pub proof fn law_scan_accounts_for_everyone(previous: Seq<u64>, found: Seq<u64>)
    ensures
        forall|e: u64| #[trigger] exited_from(previous, found).contains(e) <==> previous.contains(e) && !found.contains(e),
        forall|e: u64| found.contains(e) && !previous.contains(e) ==> #[trigger] entered_from(previous, found, found.len()).contains(e),
        forall|e: u64| #[trigger] entered_from(previous, found, found.len()).contains(e) ==> found.contains(e),
{
    broadcast use vstd::seq_lib::group_filter_ensures;
    lemma_entered_from(previous, found, found.len());
    let pf = |x: u64| !found.contains(x);
    assert forall|e: u64| #[trigger] exited_from(previous, found).contains(e) <==> previous.contains(e) && !found.contains(e) by {
        if exited_from(previous, found).contains(e) {
            previous.lemma_filter_contains_rev(pf, e);
            let j = choose|j: int| 0 <= j < previous.filter(pf).len() && previous.filter(pf)[j] == e;
            assert(pf(previous.filter(pf)[j]));
        }
        if previous.contains(e) && !found.contains(e) {
            let i = choose|i: int| 0 <= i < previous.len() && previous[i] == e;
            previous.lemma_filter_contains(pf, i);
        }
    }
    assert forall|e: u64| found.contains(e) && !previous.contains(e) implies #[trigger] entered_from(previous, found, found.len()).contains(e) by {
        let i = choose|i: int| 0 <= i < found.len() && found[i] == e;
        assert(!previous.contains(found[i]));
    }
    assert forall|e: u64| #[trigger] entered_from(previous, found, found.len()).contains(e) implies found.contains(e) by {
        let i = choose|i: int| 0 <= i < found.len() && found[i] == e;
    }
}

} // verus!
