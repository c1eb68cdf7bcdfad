//! Events the world sends to the outside.
use vstd::prelude::*;
use crate::coord::Coord;

verus! {

#[derive(Debug, Clone, Copy, PartialEq, Eq, Hash, Structural)]
pub enum ExternEvent {
    /// A render chunk moved to the given section coordinate.
    RenderChunkMoved(Coord),
}

} // verus!
