//! Identifiers handed out by a block registry.
use vstd::prelude::*;

verus! {

/// A registered state.
#[derive(Debug, Clone, Copy, PartialEq, Eq, PartialOrd, Ord, Hash, Structural)]
pub struct StateRef(pub u32);

/// A registered block.
#[derive(Debug, Clone, Copy, PartialEq, Eq, PartialOrd, Ord, Hash, Structural)]
pub struct BlockRef(pub u32);

/// The index of a state in a registry.
#[derive(Debug, Clone, Copy, PartialEq, Eq, PartialOrd, Ord, Hash, Structural)]
pub struct StateId(pub u32);

/// The index of a block in a registry.
#[derive(Debug, Clone, Copy, PartialEq, Eq, PartialOrd, Ord, Hash, Structural)]
pub struct BlockId(pub u32);

impl StateId {
    pub fn id(self) -> (r: u32)
        ensures
            r == self.0,
    {
        self.0
    }
}

impl BlockId {
    pub fn id(self) -> (r: u32)
        ensures
            r == self.0,
    {
        self.0
    }
}

} // verus!
