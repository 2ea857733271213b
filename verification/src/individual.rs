//! One cell's inhabitant: where it lives, what it believes, whom it can meet
//! and which cluster it was counted into.

use crate::config::Parameters;
use crate::config::SimulationConfig;
use crate::error::SimulationError;
use crate::interaction::adopt_trait;
use crate::interaction::adopted;
use crate::interaction::count_shared_traits;
use crate::interaction::differing_features;
use crate::interaction::find_differing_features;
use crate::interaction::interaction_outcome;
use crate::interaction::lemma_all_shared_iff_same;
use crate::interaction::lemma_shared_and_differing;
use crate::interaction::shared_traits;
use crate::stream::choice_draw;
use crate::stream::coin_from_ratio;
use crate::stream::pick;
use crate::stream::range_draw;
use crate::stream::toss;
use crate::stream::uniform_below;
use crate::topology::neighbors;
use crate::topology::neighbors_of;
use crate::topology::Point;
use vstd::prelude::*;

verus! {

/// An individual of the lattice.
#[derive(Debug)]
pub struct Individual {
    location: Point,
    cultural_features: Vec<u32>,
    neighbors: Vec<Point>,
    culture_label: u64,
}

/// An individual as a value: its cell, its culture, the cells it can meet, and
/// the label of its cluster, which is zero until the clusters are labelled.
pub struct IndividualView {
    pub location: Point,
    pub features: Seq<u32>,
    pub neighbors: Seq<Point>,
    pub label: u64,
}

impl IndividualView {
    /// Whether the culture has one trait for each feature, each of them one of
    /// the traits on offer.
    pub open spec fn has_culture_of(self, parameters: Parameters) -> bool {
        &&& self.features.len() == parameters.num_features
        &&& forall|i: int|
            0 <= i < self.features.len() ==> #[trigger] self.features[i] < parameters.num_traits
    }

    /// Whether this is an individual of a lattice with the given parameters:
    /// its culture fits them and its neighbours are those of its cell.
    pub open spec fn wf(self, parameters: Parameters) -> bool {
        &&& self.has_culture_of(parameters)
        &&& self.neighbors == neighbors(self.location, parameters.width, parameters.height)
    }
}

impl Clone for Individual {
    /// An individual with the same cell, culture, neighbours and label.
    fn clone(&self) -> (copy: Individual)
        ensures
            copy@ == self@,
    {
        Individual {
            location: self.location,
            cultural_features: self.cultural_features.clone(),
            neighbors: self.neighbors.clone(),
            culture_label: self.culture_label,
        }
    }
}

impl View for Individual {
    type V = IndividualView;

    closed spec fn view(&self) -> IndividualView {
        IndividualView {
            location: self.location,
            features: self.cultural_features@,
            neighbors: self.neighbors@,
            label: self.culture_label,
        }
    }
}

/// The culture that `count` draws below `num_traits` give, feature by feature,
/// to an individual born with a generator in `state`, and the state after the
/// last draw.
pub open spec fn drawn_features(state: (u128, u128), count: nat, num_traits: u32) -> (
    Seq<u32>,
    (u128, u128),
)
    decreases count,
{
    if count == 0 {
        (Seq::empty(), state)
    } else {
        let (earlier, before) = drawn_features(state, (count - 1) as nat, num_traits);
        let (value, after) = range_draw(before, num_traits);
        (earlier.push(value), after)
    }
}

/// The individual born at `location` with a generator in `state`.
pub open spec fn newborn(location: Point, parameters: Parameters, state: (u128, u128))
    -> IndividualView {
    IndividualView {
        location,
        features: drawn_features(state, parameters.num_features as nat, parameters.num_traits).0,
        neighbors: neighbors(location, parameters.width, parameters.height),
        label: 0,
    }
}

/// Whether `after` is `before` itself or `before` with one feature, in which
/// it differed from `other`, set to the trait that `other` has there.
pub open spec fn adopted_one_or_none(before: Seq<u32>, other: Seq<u32>, after: Seq<u32>) -> bool {
    after == before || exists|feature: int|
        0 <= feature < before.len() && before[feature] != other[feature] && after
            == #[trigger] adopted(before, other, feature)
}

impl Individual {
    /// A new individual at `location`: one draw for each feature, in the order
    /// of the features; the neighbours of its cell; no label yet.
    ///
    /// Nothing is drawn where the parameters are faulty.
    pub fn new(location: Point, config: &mut SimulationConfig) -> (res: Result<
        Individual,
        SimulationError,
    >)
        ensures
            final(config).parameters() == old(config).parameters(),
            match res {
                Ok(individual) => {
                    &&& old(config).parameters().fault() is None
                    &&& individual@ == newborn(
                        location,
                        old(config).parameters(),
                        old(config).stream(),
                    )
                    &&& final(config).stream() == drawn_features(
                        old(config).stream(),
                        old(config).num_features as nat,
                        old(config).num_traits,
                    ).1
                    &&& individual@.wf(old(config).parameters())
                },
                Err(e) => {
                    &&& old(config).parameters().fault() == Some(e)
                    &&& final(config).stream() == old(config).stream()
                },
            },
    {
        if config.num_features == 0 {
            return Err(SimulationError::NoFeatures);
        }
        if config.num_traits == 0 {
            return Err(SimulationError::NoTraits);
        }
        let neighbors = match neighbors_of(location, config.width, config.height) {
            Ok(found) => found,
            Err(e) => {
                return Err(e);
            },
        };
        let mut cultural_features: Vec<u32> = Vec::new();
        let mut i: u32 = 0;
        while i < config.num_features
            invariant
                i <= config.num_features,
                config.num_traits > 0,
                config.parameters() == old(config).parameters(),
                cultural_features@.len() == i,
                (cultural_features@, config.stream()) == drawn_features(
                    old(config).stream(),
                    i as nat,
                    config.num_traits,
                ),
                forall|k: int|
                    0 <= k < cultural_features@.len() ==> #[trigger] cultural_features@[k]
                        < config.num_traits,
            decreases config.num_features - i,
        {
            let value = uniform_below(&mut config.rng, config.num_traits);
            cultural_features.push(value);
            i += 1;
        }
        Ok(Individual { location, cultural_features, neighbors, culture_label: 0 })
    }

    /// One of the individual's neighbours, chosen by the generator with one
    /// draw. An individual without neighbours draws nothing.
    pub fn choose_random_neighbor<'a>(&'a self, config: &mut SimulationConfig) -> (res: Result<
        &'a Point,
        SimulationError,
    >)
        ensures
            final(config).parameters() == old(config).parameters(),
            match res {
                Ok(neighbor) => {
                    let (position, next) = choice_draw(
                        old(config).stream(),
                        self@.neighbors.len(),
                    );
                    &&& position < self@.neighbors.len()
                    &&& *neighbor == self@.neighbors[position as int]
                    &&& final(config).stream() == next
                },
                Err(e) => {
                    &&& e == SimulationError::NoNeighbors
                    &&& self@.neighbors.len() == 0
                    &&& final(config).stream() == old(config).stream()
                },
            },
    {
        match pick(&self.neighbors, &mut config.rng) {
            Some(neighbor) => Ok(neighbor),
            None => Err(SimulationError::NoNeighbors),
        }
    }

    /// One meeting with `other`, whose culture has as many features as this
    /// individual's.
    ///
    /// Identical cultures stay as they are and draw nothing. Otherwise a coin
    /// weighted with the share of common features is tossed; where it hits, one
    /// of the differing features is chosen and takes the trait of `other`.
    /// Nothing but the culture changes, and of the culture at most that one
    /// feature; cultures with no feature in common stay as they are.
    pub fn interact(&mut self, other: Individual, config: &mut SimulationConfig)
        requires
            old(self)@.features.len() == other@.features.len(),
            old(self)@.features.len() <= u32::MAX,
        ensures
            final(config).parameters() == old(config).parameters(),
            (final(self)@.features, final(config).stream()) == interaction_outcome(
                old(self)@.features,
                other@.features,
                old(config).stream(),
            ),
            final(self)@.location == old(self)@.location,
            final(self)@.neighbors == old(self)@.neighbors,
            final(self)@.label == old(self)@.label,
            final(self)@.features.len() == old(self)@.features.len(),
            old(self)@.features == other@.features ==> {
                &&& final(self)@ == old(self)@
                &&& final(config).stream() == old(config).stream()
            },
            adopted_one_or_none(old(self)@.features, other@.features, final(self)@.features),
            shared_traits(old(self)@.features, other@.features) == 0 ==> final(self)@.features
                == old(self)@.features,
            forall|parameters: Parameters|
                old(self)@.wf(parameters) && other@.has_culture_of(parameters)
                    ==> final(self)@.wf(parameters),
    {
        let numerator = count_shared_traits(&self.cultural_features, &other.cultural_features);
        let denominator = self.cultural_features.len();
        proof {
            lemma_all_shared_iff_same(self@.features, other@.features);
        }
        if numerator == denominator {
            return;
        }
        let is_interact = match coin_from_ratio(numerator as u32, denominator as u32) {
            Some(coin) => toss(&coin, &mut config.rng),
            None => unreached(),
        };
        if is_interact {
            let different_characteristics = find_differing_features(
                &self.cultural_features,
                &other.cultural_features,
            );
            proof {
                lemma_shared_and_differing(
                    self@.features,
                    other@.features,
                    self@.features.len(),
                );
            }
            let ghost differing = differing_features(self@.features, other@.features);
            let ghost position = choice_draw(config.stream(), differing.len()).0 as int;
            match pick(&different_characteristics, &mut config.rng) {
                Some(feature_to_mutate) => {
                    assert(*feature_to_mutate as int == differing[position]);
                    adopt_trait(
                        &mut self.cultural_features,
                        &other.cultural_features,
                        *feature_to_mutate,
                    );
                },
                None => unreached(),
            }
        }
    }

    /// The individual with the given cell, culture, neighbours and label.
    pub fn from_parts(
        location: Point,
        cultural_features: Vec<u32>,
        neighbors: Vec<Point>,
        culture_label: u64,
    ) -> (individual: Individual)
        ensures
            individual@ == (IndividualView {
                location,
                features: cultural_features@,
                neighbors: neighbors@,
                label: culture_label,
            }),
    {
        Individual { location, cultural_features, neighbors, culture_label }
    }

    /// The cell in which the individual lives.
    pub fn location(&self) -> (location: Point)
        ensures
            location == self@.location,
    {
        self.location
    }

    /// The cells whose individuals this one can meet.
    pub fn neighbors(&self) -> (neighbors: &Vec<Point>)
        ensures
            neighbors@ == self@.neighbors,
    {
        &self.neighbors
    }

    /// The label of the individual's cluster, zero while it has none.
    pub fn culture_label(&self) -> (label: u64)
        ensures
            label == self@.label,
    {
        self.culture_label
    }

    /// Writes the label of the individual's cluster and leaves the rest as it
    /// is.
    pub fn set_culture_label(&mut self, label: u64)
        ensures
            final(self)@ == (IndividualView { label, ..old(self)@ }),
    {
        self.culture_label = label;
    }

    /// The individual's culture, copied.
    pub fn clone_cultural_features(&self) -> (features: Vec<u32>)
        ensures
            features@ == self@.features,
    {
        self.cultural_features.clone()
    }
}

} // verus!
