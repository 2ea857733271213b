//! The interaction rule on two feature vectors: how much two cultures have in
//! common, where they differ, and what one meeting makes of them.

use crate::stream::choice_draw;
use crate::stream::coin_toss;
use crate::stream::ratio_threshold;
use vstd::prelude::*;

verus! {

/// The number of positions below `n` at which the two vectors hold the same
/// trait.
pub open spec fn shared_in_prefix(mine: Seq<u32>, theirs: Seq<u32>, n: nat) -> nat
    decreases n,
{
    if n == 0 {
        0
    } else {
        let earlier = shared_in_prefix(mine, theirs, (n - 1) as nat);
        if mine[n - 1] == theirs[n - 1] {
            earlier + 1
        } else {
            earlier
        }
    }
}

/// The number of features in which two cultures agree.
pub open spec fn shared_traits(mine: Seq<u32>, theirs: Seq<u32>) -> nat {
    shared_in_prefix(mine, theirs, mine.len())
}

/// The positions below `n` at which the two vectors hold different traits, in
/// rising order.
pub open spec fn differing_in_prefix(mine: Seq<u32>, theirs: Seq<u32>, n: nat) -> Seq<int>
    decreases n,
{
    if n == 0 {
        Seq::empty()
    } else {
        let earlier = differing_in_prefix(mine, theirs, (n - 1) as nat);
        if mine[n - 1] != theirs[n - 1] {
            earlier.push(n - 1)
        } else {
            earlier
        }
    }
}

/// The features in which two cultures differ, in rising order.
pub open spec fn differing_features(mine: Seq<u32>, theirs: Seq<u32>) -> Seq<int> {
    differing_in_prefix(mine, theirs, mine.len())
}

/// A culture after it has taken over the other's trait for one feature.
pub open spec fn adopted(mine: Seq<u32>, theirs: Seq<u32>, feature: int) -> Seq<u32> {
    mine.update(feature, theirs[feature])
}

/// What one meeting makes of a culture and of a generator in `state`.
///
/// Identical cultures stay as they are and draw nothing. Otherwise a coin
/// weighted with the share of common features is tossed; where it hits, one of
/// the differing features is chosen and takes the other culture's trait.
pub open spec fn interaction_outcome(mine: Seq<u32>, theirs: Seq<u32>, state: (u128, u128)) -> (
    Seq<u32>,
    (u128, u128),
) {
    let shared = shared_traits(mine, theirs);
    if shared == mine.len() {
        (mine, state)
    } else {
        let threshold = ratio_threshold(shared as u32, mine.len() as u32);
        let (hit, tossed) = coin_toss(state, threshold);
        if hit {
            let differing = differing_features(mine, theirs);
            let (position, chosen) = choice_draw(tossed, differing.len());
            (adopted(mine, theirs, differing[position as int]), chosen)
        } else {
            (mine, tossed)
        }
    }
}

/// Every position is counted once: either the cultures agree there or they
/// differ. The differing positions are listed in rising order, each of them is
/// a position at which the cultures differ, and none of those is missing.
pub proof fn lemma_shared_and_differing(mine: Seq<u32>, theirs: Seq<u32>, n: nat)
    requires
        n <= mine.len(),
        n <= theirs.len(),
    ensures
        shared_in_prefix(mine, theirs, n) + differing_in_prefix(mine, theirs, n).len() == n,
        forall|k: int|
            0 <= k < differing_in_prefix(mine, theirs, n).len() ==> {
                let feature = #[trigger] differing_in_prefix(mine, theirs, n)[k];
                0 <= feature < n && mine[feature] != theirs[feature]
            },
        forall|j: int, k: int|
            0 <= j < k < differing_in_prefix(mine, theirs, n).len() ==> differing_in_prefix(
                mine,
                theirs,
                n,
            )[j] < differing_in_prefix(mine, theirs, n)[k],
        forall|i: int|
            0 <= i < n && mine[i] != theirs[i] ==> differing_in_prefix(mine, theirs, n).contains(i),
    decreases n,
{
    if n > 0 {
        let earlier = differing_in_prefix(mine, theirs, (n - 1) as nat);
        let all = differing_in_prefix(mine, theirs, n);
        lemma_shared_and_differing(mine, theirs, (n - 1) as nat);
        assert forall|i: int| 0 <= i < n && mine[i] != theirs[i] implies all.contains(i) by {
            if i < n - 1 {
                assert(earlier.contains(i));
                let k = choose|k: int| 0 <= k < earlier.len() && earlier[k] == i;
                assert(all[k] == i);
            } else {
                assert(all[all.len() - 1] == i);
            }
        }
    }
}

/// Two cultures of the same length agree in every feature exactly when they
/// are the same culture.
pub proof fn lemma_all_shared_iff_same(mine: Seq<u32>, theirs: Seq<u32>)
    requires
        mine.len() == theirs.len(),
    ensures
        shared_traits(mine, theirs) == mine.len() <==> mine == theirs,
{
    lemma_shared_and_differing(mine, theirs, mine.len());
    let differing = differing_features(mine, theirs);
    if mine == theirs {
        if differing.len() > 0 {
            assert(mine[differing[0]] != theirs[differing[0]]);
        }
    } else {
        if differing.len() == 0 {
            assert forall|i: int| 0 <= i < mine.len() implies mine[i] == theirs[i] by {
                if mine[i] != theirs[i] {
                    assert(differing.contains(i));
                }
            }
            assert(mine =~= theirs);
        }
    }
}

/// Whether two feature vectors are the same culture.
pub fn same_culture(mine: &Vec<u32>, theirs: &Vec<u32>) -> (same: bool)
    ensures
        same == (mine@ == theirs@),
{
    if mine.len() != theirs.len() {
        return false;
    }
    let mut i: usize = 0;
    while i < mine.len()
        invariant
            i <= mine.len(),
            mine.len() == theirs.len(),
            forall|k: int| 0 <= k < i ==> mine@[k] == theirs@[k],
        decreases mine.len() - i,
    {
        if mine[i] != theirs[i] {
            return false;
        }
        i += 1;
    }
    assert(mine@ =~= theirs@);
    true
}

/// Counts the features in which two cultures of the same length agree.
pub fn count_shared_traits(mine: &Vec<u32>, theirs: &Vec<u32>) -> (shared: usize)
    requires
        mine.len() == theirs.len(),
    ensures
        shared == shared_traits(mine@, theirs@),
        shared <= mine.len(),
{
    let mut shared: usize = 0;
    let mut i: usize = 0;
    while i < mine.len()
        invariant
            i <= mine.len(),
            mine.len() == theirs.len(),
            shared == shared_in_prefix(mine@, theirs@, i as nat),
            shared <= i,
        decreases mine.len() - i,
    {
        if mine[i] == theirs[i] {
            shared += 1;
        }
        i += 1;
    }
    shared
}

/// Lists the features in which two cultures of the same length differ.
pub fn find_differing_features(mine: &Vec<u32>, theirs: &Vec<u32>) -> (differing: Vec<usize>)
    requires
        mine.len() == theirs.len(),
    ensures
        differing@.map_values(|feature: usize| feature as int) == differing_features(
            mine@,
            theirs@,
        ),
{
    let mut differing: Vec<usize> = Vec::new();
    let mut i: usize = 0;
    while i < mine.len()
        invariant
            i <= mine.len(),
            mine.len() == theirs.len(),
            differing@.map_values(|feature: usize| feature as int) == differing_in_prefix(
                mine@,
                theirs@,
                i as nat,
            ),
        decreases mine.len() - i,
    {
        if mine[i] != theirs[i] {
            differing.push(i);
        }
        i += 1;
    }
    differing
}

/// Takes over the other culture's trait for one feature.
pub fn adopt_trait(mine: &mut Vec<u32>, theirs: &Vec<u32>, feature: usize)
    requires
        feature < old(mine).len(),
        feature < theirs.len(),
    ensures
        final(mine)@ == adopted(old(mine)@, theirs@, feature as int),
{
    mine[feature] = theirs[feature];
}

} // verus!
