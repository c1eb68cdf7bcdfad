//! Identifiers of registered block states and blocks.
use vstd::prelude::*;

verus! {

/// The identifier of a registered block state; 0 is air.
#[derive(Debug, Default, Clone, Copy, PartialEq, Eq, PartialOrd, Ord, Hash, Structural)]
pub struct Id(pub u32);

/// The identifier of a registered block.
#[derive(Debug, Clone, Copy, PartialEq, Eq, PartialOrd, Ord, Hash, Structural)]
pub struct BlockId(pub u32);

impl Id {
    /// The state is not air.
    pub fn is_non_air(self) -> (r: bool)
        ensures
            r == (self.0 != 0),
    {
        self.0 != 0
    }

    /// The number of the state.
    pub fn id(self) -> (r: u32)
        ensures
            r == self.0,
    {
        self.0
    }

    /// The state is air.
    pub fn is_air(self) -> (r: bool)
        ensures
            r == (self.0 == 0),
    {
        self.0 == 0
    }
}

impl BlockId {
    /// The number of the block.
    pub fn id(self) -> (r: u32)
        ensures
            r == self.0,
    {
        self.0
    }
}

/// The block of the state [`Id`] 0.
pub struct AirBlock;

} // verus!
