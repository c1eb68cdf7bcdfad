//! Levels of detail of a rendered chunk.
use vstd::prelude::*;

verus! {

#[derive(Debug, Default, Clone, Copy, PartialEq, Eq, PartialOrd, Ord, Hash, Structural)]
pub enum LOD {
    #[default]
    Level0,
    Level1,
    Level2,
    Level3,
}

} // verus!
