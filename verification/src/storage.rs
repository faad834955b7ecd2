use vstd::prelude::*;
use bevy::utils::HashMap;

verus! {

/// How many of an item a map of counts holds: its count, or 0 when absent.
pub open spec fn count_in(m: Map<Seq<char>, i32>, name: Seq<char>) -> int {
    if m.contains_key(name) { m[name] as int } else { 0 }
}

/// Reading a count back after setting it gives what was set, and the other
/// counts are untouched.
pub proof fn law_quantity_after_set(m: Map<Seq<char>, i32>, name: Seq<char>, q: i32)
    ensures
        count_in(m.insert(name, q), name) == q,
        forall|k: Seq<char>| k != name ==> #[trigger] count_in(m.insert(name, q), k) == count_in(m, k),
{
}

/// The counts after `q` (which may be negative) of `name` are added.
pub open spec fn with_added(m: Map<Seq<char>, i32>, name: Seq<char>, q: int) -> Map<Seq<char>, i32> {
    m.insert(name, (count_in(m, name) + q) as i32)
}

/// The counts after `q` of `name` are taken away, not going below zero.
pub open spec fn with_removed(m: Map<Seq<char>, i32>, name: Seq<char>, q: int) -> Map<Seq<char>, i32> {
    m.insert(name, (if count_in(m, name) - q > 0 { count_in(m, name) - q } else { 0 }) as i32)
}

/// Taking one of an item away right after adding one leaves every count as
/// it was (for an item whose count is not negative).
pub proof fn law_remove_one_undoes_add_one(m: Map<Seq<char>, i32>, name: Seq<char>)
    requires
        0 <= count_in(m, name) < i32::MAX,
    ensures
        count_in(with_added(m, name, 1), name) > 0,
        forall|k: Seq<char>| #[trigger] count_in(with_added(with_added(m, name, 1), name, -1), k) == count_in(m, k),
{
    let added = with_added(m, name, 1);
    let back = with_added(added, name, -1);
    assert(count_in(added, name) == count_in(m, name) + 1);
    assert forall|k: Seq<char>| #[trigger] count_in(back, k) == count_in(m, k) by {
        if k != name {
            assert(back.contains_key(k) == m.contains_key(k));
        }
    }
}

/// Adding a non-negative amount of an item and then removing the same
/// amount leaves every count as it was, for an item whose count is not
/// negative.
pub proof fn law_remove_undoes_add(m: Map<Seq<char>, i32>, name: Seq<char>, q: i32)
    requires
        0 <= q,
        0 <= count_in(m, name),
        count_in(m, name) + q <= i32::MAX,
    ensures
        forall|k: Seq<char>| #[trigger] count_in(with_removed(with_added(m, name, q as int), name, q as int), k) == count_in(m, k),
{
    let added = with_added(m, name, q as int);
    let back = with_removed(added, name, q as int);
    assert(count_in(added, name) == count_in(m, name) + q);
    assert forall|k: Seq<char>| #[trigger] count_in(back, k) == count_in(m, k) by {
        if k != name {
            assert(back.contains_key(k) == m.contains_key(k));
        }
    }
}

/// Item counts by name, each name once.
pub open spec fn keys_unique(items: Seq<(String, i32)>) -> bool {
    forall|i: int, j: int| 0 <= i < j < items.len() ==> (#[trigger] items[i]).0@ != (#[trigger] items[j]).0@
}

/// The map from item name to count that a list of entries holds.
pub open spec fn entries_map(items: Seq<(String, i32)>) -> Map<Seq<char>, i32> {
    Map::new(
        |k: Seq<char>| exists|i: int| 0 <= i < items.len() && (#[trigger] items[i]).0@ == k,
        |k: Seq<char>| items[choose|i: int| 0 <= i < items.len() && (#[trigger] items[i]).0@ == k].1,
    )
}

proof fn lemma_entry_in_map(items: Seq<(String, i32)>, i: int)
    requires
        keys_unique(items),
        0 <= i < items.len(),
    ensures
        entries_map(items).contains_key(items[i].0@),
        entries_map(items)[items[i].0@] == items[i].1,
{
    let k = items[i].0@;
    assert(exists|j: int| 0 <= j < items.len() && (#[trigger] items[j]).0@ == k);
    let j = choose|j: int| 0 <= j < items.len() && (#[trigger] items[j]).0@ == k;
    assert(j == i);
}


/// Item counts by name, held in bevy's hash map (`bevy::utils::HashMap`,
/// a `hashbrown` map).
#[verifier::external_body]
pub struct ItemCounts {
    map: HashMap<String, i32>,
}

// The count held under each item name.
pub uninterp spec fn item_counts(m: ItemCounts) -> Map<Seq<char>, i32>;

/// Calls `HashMap::default`. Claimed of it: the map holds nothing.
#[verifier::external_body]
fn counts_new() -> (r: ItemCounts)
    ensures
        item_counts(r) =~= Map::empty(),
{
    ItemCounts { map: HashMap::default() }
}

/// Calls `HashMap::get` and copies the count out. Claimed of it: the count
/// held under `name`, if any (`String` keys are found by their characters).
#[verifier::external_body]
fn counts_get(m: &ItemCounts, name: &str) -> (r: Option<i32>)
    ensures
        r == (if item_counts(*m).contains_key(name@) { Some(item_counts(*m)[name@]) } else { None::<i32> }),
{
    m.map.get(name).copied()
}

/// Calls `HashMap::insert` with `name` as a `String`. Claimed of it: the
/// count under `name` becomes `quantity`, and the others stay.
#[verifier::external_body]
fn counts_insert(m: &mut ItemCounts, name: &str, quantity: i32)
    ensures
        item_counts(*final(m)) == item_counts(*old(m)).insert(name@, quantity),
{
    m.map.insert(name.to_string(), quantity);
}

/// Calls `HashMap::iter` and copies out each (name, count) entry. Claimed
/// of it: each name held appears once, with its count. The order is the
/// map's iteration order, which this contract leaves open.
#[verifier::external_body]
fn counts_entries(m: &ItemCounts) -> (r: Vec<(String, i32)>)
    ensures
        keys_unique(r@),
        entries_map(r@) == item_counts(*m),
{
    m.map.iter().map(|(name, count)| (name.clone(), *count)).collect()
}

/// Calls `HashMap::clone`. Claimed of it: the copy holds the same counts.
#[verifier::external_body]
fn counts_clone(m: &ItemCounts) -> (r: ItemCounts)
    ensures
        item_counts(r) == item_counts(*m),
{
    ItemCounts { map: m.map.clone() }
}

/// Calls `HashMap::eq`. Claimed of it: the maps are equal exactly when they
/// hold the same counts under the same names.
#[verifier::external_body]
fn counts_eq(a: &ItemCounts, b: &ItemCounts) -> (r: bool)
    ensures
        r == (item_counts(*a) == item_counts(*b)),
{
    a.map == b.map
}

impl core::hash::Hash for ItemCounts {
    /// Feeds each name and its count to `state`, in the map's walk order.
    #[verifier::external_body]
    fn hash<H: core::hash::Hasher>(&self, state: &mut H) {
        for (key, value) in self.map.iter() {
            key.hash(state);
            value.hash(state);
        }
    }
}

/// The count of `name` in `m`, 0 when it holds none.
fn counts_quantity(m: &ItemCounts, name: &str) -> (r: i32)
    ensures
        r == count_in(item_counts(*m), name@),
{
    match counts_get(m, name) {
        Some(q) => q,
        None => 0,
    }
}

/// Something that holds counts of named items.
pub trait ItemContainer {
    /// The count held for each item name.
    spec fn contents(&self) -> Map<Seq<char>, i32>;

    /// The count of `name`, 0 when it is not held.
    fn quantity(&self, name: &str) -> (r: i32)
        ensures
            r == count_in(self.contents(), name@),
    ;

    /// Adds `quantity` (which may be negative) to the count of `name`.
    fn add(&mut self, name: &str, quantity: i32)
        requires
            i32::MIN <= count_in(old(self).contents(), name@) + quantity <= i32::MAX,
        ensures
            final(self).contents() == with_added(old(self).contents(), name@, quantity as int),
    ;

    /// Takes `quantity` of `name` away, not going below zero; does so only when
    /// some of it is held or `force` is set, and then returns `Some(())`.
    fn remove(&mut self, name: &str, quantity: i32, force: bool) -> (r: Option<()>)
        requires
            (count_in(old(self).contents(), name@) > 0 || force) ==> i32::MIN <= count_in(
                old(self).contents(),
                name@,
            ) - quantity,
            (count_in(old(self).contents(), name@) > 0 || force) ==> count_in(old(self).contents(), name@) - quantity <= i32::MAX,
        ensures
            (count_in(old(self).contents(), name@) > 0 || force) ==> r is Some && final(self).contents()
                == with_removed(old(self).contents(), name@, quantity as int),
            !(count_in(old(self).contents(), name@) > 0 || force) ==> r is None && final(self).contents()
                == old(self).contents(),
    ;

    /// Sets the count of `name`.
    fn set(&mut self, name: &str, quantity: i32)
        ensures
            final(self).contents() == old(self).contents().insert(name@, quantity),
    ;

    /// Adds one of `name`.
    fn add_one(&mut self, name: &str)
        requires
            count_in(old(self).contents(), name@) < i32::MAX,
        ensures
            final(self).contents() == with_added(old(self).contents(), name@, 1),
    ;

    /// Takes one of `name` away when some is held, and then returns `Some(())`.
    fn remove_one(&mut self, name: &str) -> (r: Option<()>)
        ensures
            count_in(old(self).contents(), name@) > 0 ==> r is Some && final(self).contents()
                == with_added(old(self).contents(), name@, -1),
            count_in(old(self).contents(), name@) <= 0 ==> r is None && final(self).contents()
                == old(self).contents(),
    ;
}


/// The goods a location or a driver holds.
#[derive(Hash)]
pub struct Storage {
    items: ItemCounts,
}

impl Storage {
    /// An empty storage.
    pub fn new() -> (s: Storage)
        ensures
            s.contents() == Map::<Seq<char>, i32>::empty(),
    {
        Storage { items: counts_new() }
    }

    /// The held entries, as (name, count) pairs, each name once, in the
    /// order the map walks them.
    pub fn entries(&self) -> (r: Vec<(String, i32)>)
        ensures
            entries_map(r@) == self.contents(),
            keys_unique(r@),
    {
        counts_entries(&self.items)
    }

    /// The name of an item with the highest count, if any count is above
    /// zero (the first such item in the order the map walks them).
    pub fn find_most_common(&self) -> (r: Option<String>)
        ensures
            r is None ==> forall|k: Seq<char>| #[trigger] self.contents().contains_key(k) ==> self.contents()[k] <= 0,
            r matches Some(name) ==> self.contents().contains_key(name@) && self.contents()[name@] > 0
                && forall|k: Seq<char>| #[trigger] self.contents().contains_key(k) ==> self.contents()[k] <= self.contents()[name@],
    {
        let items = counts_entries(&self.items);
        let mut most_common: Option<usize> = None;
        let mut most_common_count: i32 = 0;
        let mut i: usize = 0;
        while i < items.len()
            invariant
                i <= items.len(),
                keys_unique(items@),
                most_common is None ==> most_common_count == 0,
                most_common matches Some(m) ==> m < i && items@[m as int].1 == most_common_count && most_common_count > 0,
                forall|j: int| 0 <= j < i ==> (#[trigger] items@[j]).1 <= most_common_count,
            decreases items.len() - i,
        {
            if items[i].1 > most_common_count {
                most_common_count = items[i].1;
                most_common = Some(i);
            }
            i = i + 1;
        }
        assert forall|k: Seq<char>| #[trigger] entries_map(items@).contains_key(k) implies entries_map(items@)[k] <= most_common_count by {
            let j = choose|j: int| 0 <= j < items@.len() && (#[trigger] items@[j]).0@ == k;
            lemma_entry_in_map(items@, j);
        }
        match most_common {
            None => None,
            Some(m) => {
                proof { lemma_entry_in_map(items@, m as int); }
                Some(items[m].0.clone())
            }
        }
    }
}

impl ItemContainer for Storage {
    closed spec fn contents(&self) -> Map<Seq<char>, i32> {
        item_counts(self.items)
    }

    fn quantity(&self, name: &str) -> (r: i32) {
        counts_quantity(&self.items, name)
    }

    fn add(&mut self, name: &str, quantity: i32) {
        let q = self.quantity(name);
        self.set(name, q + quantity);
    }

    fn remove(&mut self, name: &str, quantity: i32, force: bool) -> (r: Option<()>) {
        if self.quantity(name) > 0 || force {
            let left = self.quantity(name) - quantity;
            self.set(name, if left > 0 { left } else { 0 });
            return Some(());
        }
        None
    }

    fn set(&mut self, name: &str, quantity: i32) {
        counts_insert(&mut self.items, name, quantity);
    }

    fn add_one(&mut self, name: &str) {
        self.add(name, 1);
    }

    fn remove_one(&mut self, name: &str) -> (r: Option<()>) {
        if self.quantity(name) > 0 {
            self.add(name, -1);
            return Some(());
        }
        None
    }
}

impl PartialEq for Storage {
    fn eq(&self, other: &Self) -> (r: bool) {
        counts_eq(&self.items, &other.items)
    }
}

impl vstd::std_specs::cmp::PartialEqSpecImpl for Storage {
    open spec fn obeys_eq_spec() -> bool {
        true
    }

    open spec fn eq_spec(&self, other: &Self) -> bool {
        self.contents() == other.contents()
    }
}

impl Eq for Storage {}

impl Clone for Storage {
    fn clone(&self) -> (s: Self)
        ensures
            s.contents() == self.contents(),
    {
        Storage { items: counts_clone(&self.items) }
    }
}

impl Default for Storage {
    fn default() -> (s: Self)
        ensures
            s.contents() == Map::<Seq<char>, i32>::empty(),
    {
        Storage::new()
    }
}

/// The goods a location needs, by name.
pub struct Needs {
    items: ItemCounts,
}

impl Needs {
    /// The needed entries, as (name, count) pairs, each name once, in the
    /// order the map walks them.
    pub fn entries(&self) -> (r: Vec<(String, i32)>)
        ensures
            entries_map(r@) == self.contents(),
            keys_unique(r@),
    {
        counts_entries(&self.items)
    }
}

impl Clone for Needs {
    fn clone(&self) -> (s: Self)
        ensures
            s.contents() == self.contents(),
    {
        Needs { items: counts_clone(&self.items) }
    }
}

impl Default for Needs {
    fn default() -> (s: Self)
        ensures
            s.contents() == Map::<Seq<char>, i32>::empty(),
    {
        Needs { items: counts_new() }
    }
}

impl ItemContainer for Needs {
    closed spec fn contents(&self) -> Map<Seq<char>, i32> {
        item_counts(self.items)
    }

    fn quantity(&self, name: &str) -> (r: i32) {
        counts_quantity(&self.items, name)
    }

    fn add(&mut self, name: &str, quantity: i32) {
        let q = self.quantity(name);
        self.set(name, q + quantity);
    }

    fn remove(&mut self, name: &str, quantity: i32, force: bool) -> (r: Option<()>) {
        if self.quantity(name) > 0 || force {
            let left = self.quantity(name) - quantity;
            self.set(name, if left > 0 { left } else { 0 });
            return Some(());
        }
        None
    }

    fn set(&mut self, name: &str, quantity: i32) {
        counts_insert(&mut self.items, name, quantity);
    }

    fn add_one(&mut self, name: &str) {
        self.add(name, 1);
    }

    fn remove_one(&mut self, name: &str) -> (r: Option<()>) {
        if self.quantity(name) > 0 {
            self.add(name, -1);
            return Some(());
        }
        None
    }
}

} // verus!
