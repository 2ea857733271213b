//! A map from cultures to numbers, for the census of a lattice and for the
//! labels of its clusters.
//!
//! The map keeps its entries in the order in which their cultures were first
//! entered, so two maps filled in the same order are equal entry by entry.

use crate::interaction::same_culture;
use vstd::prelude::*;

verus! {

/// A map from cultures to numbers.
#[derive(Debug)]
pub struct CultureMap {
    cultures: Vec<Vec<u32>>,
    numbers: Vec<u64>,
}

/// The map that holds `values[i]` for `keys[i]`.
pub open spec fn entries_map(keys: Seq<Seq<u32>>, values: Seq<u64>) -> Map<Seq<u32>, u64> {
    Map::new(|culture: Seq<u32>| keys.contains(culture), |culture: Seq<u32>| values[keys.index_of(culture)])
}

/// The largest of the first `n` numbers, or zero where there is none.
pub open spec fn largest_in_prefix(values: Seq<u64>, n: nat) -> u64
    decreases n,
{
    if n == 0 {
        0
    } else {
        let earlier = largest_in_prefix(values, (n - 1) as nat);
        if values[n - 1] > earlier {
            values[n - 1]
        } else {
            earlier
        }
    }
}

/// The largest of the numbers, or zero where there is none.
pub open spec fn largest(values: Seq<u64>) -> u64 {
    largest_in_prefix(values, values.len())
}

/// The sum of the first `n` numbers.
pub open spec fn total_in_prefix(values: Seq<u64>, n: nat) -> nat
    decreases n,
{
    if n == 0 {
        0
    } else {
        total_in_prefix(values, (n - 1) as nat) + values[n - 1] as nat
    }
}

/// The sum of the numbers.
pub open spec fn total(values: Seq<u64>) -> nat {
    total_in_prefix(values, values.len())
}

/// In a map without repeated keys the entry of the key at a position is the
/// value at that position.
pub proof fn lemma_entry_at(keys: Seq<Seq<u32>>, values: Seq<u64>, i: int)
    requires
        keys.no_duplicates(),
        0 <= i < keys.len(),
    ensures
        keys.index_of(keys[i]) == i,
        entries_map(keys, values).dom().contains(keys[i]),
        entries_map(keys, values)[keys[i]] == values[i],
{
    let found = keys.index_of(keys[i]);
    assert(0 <= found < keys.len() && keys[found] == keys[i]);
}

/// The largest number is not below any of the numbers, and it is one of them
/// unless there is none.
pub proof fn lemma_largest(values: Seq<u64>, n: nat)
    requires
        n <= values.len(),
    ensures
        forall|i: int| 0 <= i < n ==> #[trigger] values[i] <= largest_in_prefix(values, n),
        n > 0 ==> exists|i: int| 0 <= i < n && #[trigger] values[i] == largest_in_prefix(values, n),
    decreases n,
{
    if n > 0 {
        lemma_largest(values, (n - 1) as nat);
        if n > 1 && values[n - 1] <= largest_in_prefix(values, (n - 1) as nat) {
            let i = choose|i: int|
                0 <= i < n - 1 && #[trigger] values[i] == largest_in_prefix(
                    values,
                    (n - 1) as nat,
                );
            assert(values[i] == largest_in_prefix(values, n));
        } else {
            assert(values[n - 1] == largest_in_prefix(values, n));
        }
    }
}

/// No number exceeds the sum of all of them.
pub proof fn lemma_total_bounds(values: Seq<u64>, n: nat)
    requires
        n <= values.len(),
    ensures
        forall|i: int| 0 <= i < n ==> #[trigger] values[i] <= total_in_prefix(values, n),
        largest_in_prefix(values, n) <= total_in_prefix(values, n),
    decreases n,
{
    if n > 0 {
        lemma_total_bounds(values, (n - 1) as nat);
    }
}

/// The sum after one more number has been appended.
pub proof fn lemma_total_push(values: Seq<u64>, value: u64)
    ensures
        total(values.push(value)) == total(values) + value,
{
    lemma_total_same_prefix(values.push(value), values, values.len());
}

/// The sum after one number has been replaced.
pub proof fn lemma_total_update(values: Seq<u64>, i: int, value: u64)
    requires
        0 <= i < values.len(),
    ensures
        total(values.update(i, value)) == total(values) - values[i] + value,
{
    lemma_total_update_prefix(values, i, value, values.len());
}

proof fn lemma_total_same_prefix(a: Seq<u64>, b: Seq<u64>, n: nat)
    requires
        n <= a.len(),
        n <= b.len(),
        forall|i: int| 0 <= i < n ==> a[i] == b[i],
    ensures
        total_in_prefix(a, n) == total_in_prefix(b, n),
    decreases n,
{
    if n > 0 {
        lemma_total_same_prefix(a, b, (n - 1) as nat);
    }
}

proof fn lemma_total_update_prefix(values: Seq<u64>, i: int, value: u64, n: nat)
    requires
        0 <= i < values.len(),
        n <= values.len(),
    ensures
        total_in_prefix(values.update(i, value), n) == if i < n {
            total_in_prefix(values, n) - values[i] + value
        } else {
            total_in_prefix(values, n) as int
        },
    decreases n,
{
    if n > 0 {
        lemma_total_update_prefix(values, i, value, (n - 1) as nat);
    }
}

impl CultureMap {
    /// The cultures that have an entry, in the order in which they were
    /// entered.
    pub closed spec fn keys(&self) -> Seq<Seq<u32>> {
        self.cultures@.map_values(|culture: Vec<u32>| culture@)
    }

    /// The numbers of the entries, in the order of `keys`.
    pub closed spec fn values(&self) -> Seq<u64> {
        self.numbers@
    }

    /// Every key has one value and no culture is entered twice. This holds of
    /// every map that a program can get hold of.
    pub open spec fn wf(&self) -> bool {
        &&& self.keys().len() == self.values().len()
        &&& self.keys().no_duplicates()
    }

    /// What every map keeps: `wf`.
    #[verifier::type_invariant]
    spec fn entries_match(&self) -> bool {
        self.wf()
    }

    /// The sum of the numbers in the map.
    pub open spec fn population(&self) -> nat {
        total(self.values())
    }

    /// The empty map.
    pub fn new() -> (map: CultureMap)
        ensures
            map.wf(),
            map.keys() == Seq::<Seq<u32>>::empty(),
            map.values() == Seq::<u64>::empty(),
            map@ == Map::<Seq<u32>, u64>::empty(),
    {
        let map = CultureMap { cultures: Vec::new(), numbers: Vec::new() };
        assert(map.keys() =~= Seq::<Seq<u32>>::empty());
        assert(map@ =~= Map::<Seq<u32>, u64>::empty());
        map
    }

    /// The number of cultures that have an entry.
    pub fn len(&self) -> (len: usize)
        ensures
            len == self.keys().len(),
            len == self@.dom().len(),
    {
        proof {
            use_type_invariant(self);
            self.lemma_domain();
        }
        self.cultures.len()
    }

    /// The domain of the map is the set of its keys, each counted once.
    pub proof fn lemma_domain(&self)
        requires
            self.wf(),
        ensures
            self@.dom() == self.keys().to_set(),
            self@.dom().finite(),
            self@.dom().len() == self.keys().len(),
    {
        assert(self@.dom() =~= self.keys().to_set());
        self.keys().unique_seq_to_set();
        vstd::seq_lib::seq_to_set_is_finite(self.keys());
    }

    /// Where `culture` stands among the keys, if it has an entry.
    fn position(&self, culture: &Vec<u32>) -> (found: Option<usize>)
        ensures
            match found {
                Some(i) => i < self.keys().len() && self.keys()[i as int] == culture@,
                None => !self.keys().contains(culture@),
            },
    {
        proof {
            use_type_invariant(self);
        }
        let mut i: usize = 0;
        while i < self.cultures.len()
            invariant
                i <= self.cultures.len(),
                self.keys().len() == self.cultures.len(),
                forall|k: int| 0 <= k < i ==> self.keys()[k] != culture@,
            decreases self.cultures.len() - i,
        {
            if same_culture(&self.cultures[i], culture) {
                return Some(i);
            }
            i += 1;
        }
        None
    }

    /// Whether `culture` has an entry.
    pub fn contains_key(&self, culture: &Vec<u32>) -> (found: bool)
        ensures
            found == self@.dom().contains(culture@),
    {
        self.position(culture).is_some()
    }

    /// The number entered for `culture`, if it has an entry.
    pub fn get(&self, culture: &Vec<u32>) -> (number: Option<u64>)
        ensures
            number == (if self@.dom().contains(culture@) {
                Some(self@[culture@])
            } else {
                None
            }),
    {
        proof {
            use_type_invariant(self);
        }
        match self.position(culture) {
            Some(i) => {
                proof {
                    lemma_entry_at(self.keys(), self.values(), i as int);
                }
                Some(self.numbers[i])
            },
            None => None,
        }
    }

    /// Enters `number` for `culture` and returns the number that it replaces.
    /// A culture that had no entry is entered behind the others.
    pub fn insert(&mut self, culture: Vec<u32>, number: u64) -> (previous: Option<u64>)
        ensures
            final(self).wf(),
            final(self)@ == old(self)@.insert(culture@, number),
            previous == (if old(self)@.dom().contains(culture@) {
                Some(old(self)@[culture@])
            } else {
                None
            }),
            old(self)@.dom().contains(culture@) ==> {
                &&& final(self).keys() == old(self).keys()
                &&& final(self).values() == old(self).values().update(
                    old(self).keys().index_of(culture@),
                    number,
                )
            },
            !old(self)@.dom().contains(culture@) ==> {
                &&& final(self).keys() == old(self).keys().push(culture@)
                &&& final(self).values() == old(self).values().push(number)
            },
    {
        proof {
            use_type_invariant(&*self);
        }
        let ghost keys = self.keys();
        let ghost values = self.values();
        match self.position(&culture) {
            Some(i) => {
                let previous = self.numbers[i];
                self.numbers[i] = number;
                proof {
                    lemma_entry_at(keys, values, i as int);
                    assert forall|key: Seq<u32>| keys.contains(key) implies #[trigger] entries_map(
                        keys,
                        values.update(i as int, number),
                    )[key] == entries_map(keys, values).insert(culture@, number)[key] by {
                        let k = keys.index_of(key);
                        lemma_entry_at(keys, values, k);
                    }
                    assert(self@ =~= entries_map(keys, values).insert(culture@, number));
                }
                Some(previous)
            },
            None => {
                // The entries are taken out, extended and put back, so that the
                // map never holds a culture without its number.
                let mut entered = CultureMap::new();
                core::mem::swap(self, &mut entered);
                let CultureMap { mut cultures, mut numbers } = entered;
                cultures.push(culture);
                numbers.push(number);
                proof {
                    let grown = keys.push(culture@);
                    assert(cultures@.map_values(|c: Vec<u32>| c@) =~= grown);
                    assert(grown.no_duplicates());
                }
                *self = CultureMap { cultures, numbers };
                proof {
                    let grown = keys.push(culture@);
                    assert(self.keys() =~= grown);
                    assert forall|key: Seq<u32>| grown.contains(key) implies #[trigger] entries_map(
                        grown,
                        values.push(number),
                    )[key] == entries_map(keys, values).insert(culture@, number)[key] by {
                        let k = grown.index_of(key);
                        lemma_entry_at(grown, values.push(number), k);
                        if k < keys.len() {
                            lemma_entry_at(keys, values, k);
                        }
                    }
                    assert forall|key: Seq<u32>| grown.contains(key) <==> keys.contains(key) || key
                        == culture@ by {
                        if keys.contains(key) {
                            let k = keys.index_of(key);
                            assert(grown[k] == key);
                        }
                        if key == culture@ {
                            assert(grown[keys.len() as int] == key);
                        }
                    }
                    assert(self@ =~= entries_map(keys, values).insert(culture@, number));
                }
                None
            },
        }
    }

    /// The culture of the entry at a position in the order of entry.
    pub fn culture_at(&self, i: usize) -> (culture: &Vec<u32>)
        requires
            i < self.keys().len(),
        ensures
            culture@ == self.keys()[i as int],
    {
        proof {
            use_type_invariant(self);
        }
        &self.cultures[i]
    }

    /// The number of the entry at a position in the order of entry.
    pub fn number_at(&self, i: usize) -> (number: u64)
        requires
            i < self.keys().len(),
        ensures
            number == self.values()[i as int],
    {
        proof {
            use_type_invariant(self);
        }
        self.numbers[i]
    }

    /// The largest number in the map, if the map has an entry.
    pub fn largest_number(&self) -> (found: Option<u64>)
        ensures
            found == (if self.keys().len() == 0 {
                None
            } else {
                Some(largest(self.values()))
            }),
    {
        proof {
            use_type_invariant(self);
        }
        if self.numbers.len() == 0 {
            return None;
        }
        let mut found: u64 = 0;
        let mut i: usize = 0;
        while i < self.numbers.len()
            invariant
                i <= self.numbers.len(),
                found == largest_in_prefix(self.values(), i as nat),
            decreases self.numbers.len() - i,
        {
            if self.numbers[i] > found {
                found = self.numbers[i];
            }
            i += 1;
        }
        Some(found)
    }
}

impl Clone for CultureMap {
    /// A map with the same entries in the same order.
    fn clone(&self) -> (copy: CultureMap)
        ensures
            copy.wf(),
            copy.keys() == self.keys(),
            copy.values() == self.values(),
    {
        proof {
            use_type_invariant(self);
        }
        let mut cultures: Vec<Vec<u32>> = Vec::new();
        let mut numbers: Vec<u64> = Vec::new();
        let mut i: usize = 0;
        while i < self.cultures.len()
            invariant
                i <= self.cultures.len(),
                self.cultures.len() == self.numbers.len(),
                cultures@.len() == i,
                numbers@.len() == i,
                forall|k: int| 0 <= k < i ==> (#[trigger] cultures@[k])@ == self.cultures@[k]@,
                forall|k: int| 0 <= k < i ==> #[trigger] numbers@[k] == self.numbers@[k],
            decreases self.cultures.len() - i,
        {
            cultures.push(self.cultures[i].clone());
            numbers.push(self.numbers[i]);
            i += 1;
        }
        proof {
            assert(cultures@.map_values(|c: Vec<u32>| c@) =~= self.keys());
            assert(numbers@ =~= self.values());
        }
        CultureMap { cultures, numbers }
    }
}

impl View for CultureMap {
    type V = Map<Seq<u32>, u64>;

    open spec fn view(&self) -> Map<Seq<u32>, u64> {
        entries_map(self.keys(), self.values())
    }
}

} // verus!
