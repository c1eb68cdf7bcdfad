//! Settings of the terrain noise that are not numbers: how octaves are
//! combined and how a noise value is bounded.
use vstd::prelude::*;

verus! {

/// How the octaves of a noise are combined.
#[derive(Debug, Clone, Copy, PartialEq, Eq, Hash, Structural)]
pub enum OctaveBlend {
    Scale,
    Multiply,
    Average,
    Min,
    Max,
}

/// What happens to a noise value beyond a bound.
#[derive(Debug, Clone, Copy, PartialEq, Eq, Hash, Structural)]
pub enum NoiseBoundMode {
    Clamp,
    Cutoff,
    Range,
}

} // verus!
