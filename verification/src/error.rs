//! What can stop a simulation.

use vstd::prelude::*;

verus! {

/// The ways in which a simulation refuses to go on. The first four say that
/// the parameters describe no lattice that can be simulated; the last two
/// say that a lattice is not in the shape the simulation keeps it in.
#[derive(Debug, Clone, Copy, PartialEq, Eq, Structural)]
pub enum SimulationError {
    /// The parameters ask for individuals without features.
    NoFeatures,
    /// The parameters offer no trait for a feature to take.
    NoTraits,
    /// The lattice is less than two cells wide.
    WidthTooSmall,
    /// The lattice is less than two cells high.
    HeightTooSmall,
    /// An individual that was to meet a neighbour has none.
    NoNeighbors,
    /// An individual's culture has no entry in the map of labels.
    MissingLabel,
}

} // verus!
