//! Axelrod's model of cultural dissemination on a rectangular lattice.
//!
//! Every cell of the lattice holds an individual with a vector of cultural
//! features. In each step one individual meets one of its four-connected
//! neighbours and, with a probability equal to the share of features the two
//! already have in common, adopts one trait in which they differ. After the
//! run the surviving cultures are counted and labelled.
//!
//! All randomness comes from one seedable generator that is handed through
//! every operation, so a run is a function of its parameters and the
//! generator's starting state.

pub mod census;
pub mod config;
pub mod culture_map;
pub mod error;
pub mod individual;
pub mod interaction;
pub mod stream;
pub mod territory;
pub mod topology;

pub use config::Parameters;
pub use config::SimulationConfig;
pub use culture_map::CultureMap;
pub use error::SimulationError;
pub use individual::Individual;
pub use rand_pcg::Pcg64;
pub use territory::FinishedTerritory;
pub use territory::Territory;
pub use topology::neighbors_of;
pub use topology::Point;
