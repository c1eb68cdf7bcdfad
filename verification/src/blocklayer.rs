//! The render layer of a block.
use vstd::prelude::*;

verus! {

/// Layers in drawing order: the base layer, the transparent layer, then the
/// numbered extra layers.
#[derive(Debug, Default, Clone, Copy, PartialEq, Eq, PartialOrd, Ord, Hash, Structural)]
pub enum BlockLayer {
    #[default]
    Base,
    Transparent,
    Other(u16),
}

impl BlockLayer {
    /// The layer is the transparent one.
    pub fn transparent(self) -> (r: bool)
        ensures
            r == (self == BlockLayer::Transparent),
    {
        matches!(self, BlockLayer::Transparent)
    }
}

} // verus!
