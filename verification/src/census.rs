//! What a census of cultures is: which cultures a scan of the lattice meets,
//! in which order, and how often.

use crate::culture_map::largest;
use crate::culture_map::lemma_largest;
use crate::culture_map::lemma_total_push;
use crate::culture_map::lemma_total_update;
use crate::culture_map::total;
use vstd::prelude::*;

verus! {

/// The distinct cultures of a scan, each at the place of its first occurrence.
pub open spec fn first_seen(scan: Seq<Seq<u32>>) -> Seq<Seq<u32>>
    decreases scan.len(),
{
    if scan.len() == 0 {
        Seq::empty()
    } else {
        let earlier = first_seen(scan.drop_last());
        if earlier.contains(scan.last()) {
            earlier
        } else {
            earlier.push(scan.last())
        }
    }
}

/// How often a culture occurs in a scan.
pub open spec fn occurrences(scan: Seq<Seq<u32>>, culture: Seq<u32>) -> nat
    decreases scan.len(),
{
    if scan.len() == 0 {
        0
    } else {
        let earlier = occurrences(scan.drop_last(), culture);
        if scan.last() == culture {
            earlier + 1
        } else {
            earlier
        }
    }
}

/// Whether the entries count the cultures of the scan: the keys are the
/// distinct cultures in the order of their first occurrence, and each value
/// says how often its culture occurs.
pub open spec fn is_census_of(keys: Seq<Seq<u32>>, values: Seq<u64>, scan: Seq<Seq<u32>>) -> bool {
    &&& keys == first_seen(scan)
    &&& values.len() == keys.len()
    &&& forall|k: int| 0 <= k < keys.len() ==> #[trigger] values[k] == occurrences(scan, keys[k])
}

/// Whether the entries label the cultures of the scan: the keys are the
/// distinct cultures in the order of their first occurrence, and the values
/// number them from one.
pub open spec fn is_labelling_of(keys: Seq<Seq<u32>>, values: Seq<u64>, scan: Seq<Seq<u32>>)
    -> bool {
    &&& keys == first_seen(scan)
    &&& values.len() == keys.len()
    &&& forall|k: int| 0 <= k < keys.len() ==> #[trigger] values[k] == k + 1
}

/// The distinct cultures of a scan are those that occur in it, each listed
/// once, and there are no more of them than the scan is long.
pub proof fn lemma_first_seen(scan: Seq<Seq<u32>>)
    ensures
        first_seen(scan).no_duplicates(),
        first_seen(scan).len() <= scan.len(),
        scan.len() > 0 ==> first_seen(scan).len() > 0,
        forall|culture: Seq<u32>| #[trigger]
            first_seen(scan).contains(culture) <==> scan.contains(culture),
    decreases scan.len(),
{
    if scan.len() > 0 {
        let earlier = first_seen(scan.drop_last());
        let all = first_seen(scan);
        lemma_first_seen(scan.drop_last());
        assert forall|culture: Seq<u32>| #[trigger]
            all.contains(culture) <==> scan.contains(culture) by {
            if all.contains(culture) {
                let k = all.index_of(culture);
                if k < earlier.len() {
                    assert(earlier[k] == culture);
                    assert(earlier.contains(culture));
                    assert(scan.drop_last().contains(culture));
                    let i = scan.drop_last().index_of(culture);
                    assert(scan[i] == culture);
                } else {
                    assert(scan[scan.len() - 1] == culture);
                }
            }
            if scan.contains(culture) {
                let i = scan.index_of(culture);
                if i < scan.len() - 1 {
                    assert(scan.drop_last()[i] == culture);
                    assert(earlier.contains(culture));
                    let k = earlier.index_of(culture);
                    assert(all[k] == culture);
                } else if earlier.contains(culture) {
                    let k = earlier.index_of(culture);
                    assert(all[k] == culture);
                } else {
                    assert(all[all.len() - 1] == culture);
                }
            }
        }
    }
}

/// A culture occurs at most as often as the scan is long, at least once where
/// the scan contains it, and never where it does not.
pub proof fn lemma_occurrences(scan: Seq<Seq<u32>>, culture: Seq<u32>)
    ensures
        occurrences(scan, culture) <= scan.len(),
        scan.contains(culture) <==> occurrences(scan, culture) > 0,
    decreases scan.len(),
{
    if scan.len() > 0 {
        lemma_occurrences(scan.drop_last(), culture);
        if scan.contains(culture) {
            let i = scan.index_of(culture);
            if i < scan.len() - 1 {
                assert(scan.drop_last()[i] == culture);
            }
        }
        if scan.drop_last().contains(culture) {
            let i = scan.drop_last().index_of(culture);
            assert(scan[i] == culture);
        }
        if scan.last() == culture {
            assert(scan[scan.len() - 1] == culture);
        }
    }
}

/// The census of a scan that has grown by one culture: a culture that was met
/// before is counted once more at its place, a new one is entered behind the
/// others with the count one.
pub proof fn lemma_census_step(
    keys: Seq<Seq<u32>>,
    values: Seq<u64>,
    scan: Seq<Seq<u32>>,
    culture: Seq<u32>,
)
    requires
        is_census_of(keys, values, scan),
    ensures
        keys.contains(culture) ==> values[keys.index_of(culture)] < u64::MAX ==> is_census_of(
            keys,
            values.update(
                keys.index_of(culture),
                (values[keys.index_of(culture)] + 1) as u64,
            ),
            scan.push(culture),
        ),
        !keys.contains(culture) ==> is_census_of(
            keys.push(culture),
            values.push(1),
            scan.push(culture),
        ),
{
    let grown = scan.push(culture);
    assert(grown.drop_last() =~= scan);
    lemma_first_seen(scan);
    lemma_occurrences(scan, culture);
    if keys.contains(culture) {
        let at = keys.index_of(culture);
        if values[at] < u64::MAX {
            let counted = values.update(at, (values[at] + 1) as u64);
            assert forall|k: int| 0 <= k < keys.len() implies #[trigger] counted[k] == occurrences(
                grown,
                keys[k],
            ) by {
                assert(values[k] == occurrences(scan, keys[k]));
            }
        }
    } else {
        let entered = keys.push(culture);
        let counted = values.push(1);
        assert forall|k: int| 0 <= k < entered.len() implies #[trigger] counted[k] == occurrences(
            grown,
            entered[k],
        ) by {
            if k < keys.len() {
                assert(values[k] == occurrences(scan, keys[k]));
            }
        }
    }
}

/// The labelling of a scan that has grown by one culture: a culture that was
/// met before keeps its label, a new one gets the next number.
pub proof fn lemma_labelling_step(
    keys: Seq<Seq<u32>>,
    values: Seq<u64>,
    scan: Seq<Seq<u32>>,
    culture: Seq<u32>,
)
    requires
        is_labelling_of(keys, values, scan),
        keys.len() < u64::MAX,
    ensures
        keys.contains(culture) ==> is_labelling_of(keys, values, scan.push(culture)),
        !keys.contains(culture) ==> is_labelling_of(
            keys.push(culture),
            values.push((keys.len() + 1) as u64),
            scan.push(culture),
        ),
{
    let grown = scan.push(culture);
    assert(grown.drop_last() =~= scan);
    if !keys.contains(culture) {
        let numbered = values.push((keys.len() + 1) as u64);
        assert forall|k: int| 0 <= k < keys.len() + 1 implies #[trigger] numbered[k] == k + 1 by {
            if k < keys.len() {
                assert(values[k] == k + 1);
            }
        }
    }
}

/// A census counts every individual once: its counts add up to the length of
/// the scan.
pub proof fn lemma_census_counts_everyone(
    keys: Seq<Seq<u32>>,
    values: Seq<u64>,
    scan: Seq<Seq<u32>>,
)
    requires
        is_census_of(keys, values, scan),
    ensures
        total(values) == scan.len(),
    decreases scan.len(),
{
    if scan.len() > 0 {
        let earlier = scan.drop_last();
        let culture = scan.last();
        let earlier_keys = first_seen(earlier);
        lemma_first_seen(scan);
        lemma_first_seen(earlier);
        lemma_occurrences(earlier, culture);
        if earlier_keys.contains(culture) {
            let at = keys.index_of(culture);
            assert(values[at] == occurrences(scan, keys[at]));
            let before = values.update(at, (values[at] - 1) as u64);
            assert forall|k: int| 0 <= k < keys.len() implies #[trigger] before[k] == occurrences(
                earlier,
                keys[k],
            ) by {
                assert(values[k] == occurrences(scan, keys[k]));
            }
            lemma_census_counts_everyone(keys, before, earlier);
            lemma_total_update(values, at, before[at]);
        } else {
            let before = values.drop_last();
            assert(earlier_keys =~= keys.drop_last());
            assert(values[values.len() - 1] == occurrences(scan, keys[keys.len() - 1]));
            assert forall|k: int| 0 <= k < earlier_keys.len() implies #[trigger] before[k]
                == occurrences(earlier, earlier_keys[k]) by {
                assert(values[k] == occurrences(scan, keys[k]));
            }
            lemma_census_counts_everyone(earlier_keys, before, earlier);
            assert(values =~= before.push(values.last()));
            lemma_total_push(before, values.last());
        }
    }
}

/// In the census of a scan that is not empty, the largest cluster holds at
/// least one individual and at most all of them.
pub proof fn lemma_largest_cluster_bounds(
    keys: Seq<Seq<u32>>,
    values: Seq<u64>,
    scan: Seq<Seq<u32>>,
)
    requires
        is_census_of(keys, values, scan),
        scan.len() > 0,
    ensures
        1 <= largest(values) <= scan.len(),
{
    lemma_first_seen(scan);
    lemma_largest(values, values.len());
    let at = choose|i: int| 0 <= i < values.len() && #[trigger] values[i] == largest(values);
    lemma_occurrences(scan, keys[at]);
    lemma_occurrences(scan, keys[0]);
    assert(keys.contains(keys[0]));
    assert(values[0] == occurrences(scan, keys[0]));
    assert(values[at] == occurrences(scan, keys[at]));
}

} // verus!
