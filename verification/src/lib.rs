mod sample;
pub mod molecule;
pub mod tank;

pub use molecule::{Molecule, MoleculeConfig};
pub use tank::Tank;

use vstd::prelude::*;

verus! {

/// Reasons a request that introduces or removes particles can be refused.
#[derive(Clone, Copy, Debug, PartialEq, Eq, Structural)]
pub enum SimError {
    /// The sampling band is too narrow for the configured radii.
    InvalidRegion,
    /// A configured range is inverted, empty, or allows a non-positive radius.
    InvalidConfig,
    /// The requested population is outside the supported range.
    InvalidCount,
}

} // verus!
