//! The parameters of a simulation and the random stream that it consumes.

use crate::error::SimulationError;
use crate::stream::generator_state;
use crate::stream::seeded_generator;
use crate::stream::seeded_state;
use crate::topology::dimension_fault;
use rand_pcg::Lcg128Xsl64;
use vstd::prelude::*;

verus! {

/// The parameters of a simulation without its random stream: what stays the
/// same from the first draw to the last.
pub struct Parameters {
    pub num_features: u32,
    pub num_traits: u32,
    pub width: u32,
    pub height: u32,
    pub num_iterations: usize,
}

impl Parameters {
    /// The first reason, if any, for which no simulation can run on these
    /// parameters: no features, no traits, a width below two, a height below
    /// two, asked in this order.
    pub open spec fn fault(self) -> Option<SimulationError> {
        if self.num_features == 0 {
            Some(SimulationError::NoFeatures)
        } else if self.num_traits == 0 {
            Some(SimulationError::NoTraits)
        } else {
            dimension_fault(self.width, self.height)
        }
    }
}

/// The parameters of a simulation together with the generator that every
/// operation of the simulation draws from.
pub struct SimulationConfig {
    pub num_features: u32,
    pub num_traits: u32,
    pub width: u32,
    pub height: u32,
    pub num_iterations: usize,
    pub rng: Lcg128Xsl64,
}

impl SimulationConfig {
    /// The part of the configuration that no draw changes.
    pub open spec fn parameters(&self) -> Parameters {
        Parameters {
            num_features: self.num_features,
            num_traits: self.num_traits,
            width: self.width,
            height: self.height,
            num_iterations: self.num_iterations,
        }
    }

    /// The state of the configuration's generator.
    pub open spec fn stream(&self) -> (u128, u128) {
        generator_state(self.rng)
    }

    pub fn new(
        num_features: u32,
        num_traits: u32,
        width: u32,
        height: u32,
        num_iterations: usize,
        rng: Lcg128Xsl64,
    ) -> (config: SimulationConfig)
        ensures
            config.num_features == num_features,
            config.num_traits == num_traits,
            config.width == width,
            config.height == height,
            config.num_iterations == num_iterations,
            config.rng == rng,
    {
        SimulationConfig { num_features, num_traits, width, height, num_iterations, rng }
    }

    /// A configuration whose generator starts from `seed`.
    pub fn from_seed(
        num_features: u32,
        num_traits: u32,
        width: u32,
        height: u32,
        num_iterations: usize,
        seed: u64,
    ) -> (config: SimulationConfig)
        ensures
            config.num_features == num_features,
            config.num_traits == num_traits,
            config.width == width,
            config.height == height,
            config.num_iterations == num_iterations,
            config.stream() == seeded_state(seed),
    {
        SimulationConfig {
            num_features,
            num_traits,
            width,
            height,
            num_iterations,
            rng: seeded_generator(seed),
        }
    }

    /// Accepts the parameters on which a simulation can run and names the
    /// fault of the others.
    pub fn validate(&self) -> (res: Result<(), SimulationError>)
        ensures
            match res {
                Ok(_) => self.parameters().fault() is None,
                Err(e) => self.parameters().fault() == Some(e),
            },
    {
        if self.num_features == 0 {
            Err(SimulationError::NoFeatures)
        } else if self.num_traits == 0 {
            Err(SimulationError::NoTraits)
        } else if self.width < 2 {
            Err(SimulationError::WidthTooSmall)
        } else if self.height < 2 {
            Err(SimulationError::HeightTooSmall)
        } else {
            Ok(())
        }
    }
}

} // verus!
