//! How the camera moves.
use vstd::prelude::*;

verus! {

#[derive(Debug, Clone, Copy, PartialEq, Eq, Hash, Structural)]
pub enum CameraType {
    /// Elevation stays locked when moving forward, backward, left or right.
    Pan,
    /// Elevation changes when moving forward or backward while looking
    /// upward or downward.
    Free,
}

} // verus!
