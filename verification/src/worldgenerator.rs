//! A world generator that fills every column with the same stack of layers.
use vstd::prelude::*;
use crate::blocks::Id;

verus! {

/// The lowest block of the world.
pub const WORLD_BOTTOM: i32 = -400;
/// One above the highest block of the world.
pub const WORLD_TOP: i32 = 240;

/// `height` blocks of `block`.
#[derive(Debug, Clone, Copy, PartialEq, Hash, Structural)]
pub struct FlatLayer {
    height: u16,
    block: Id,
}

impl FlatLayer {
    pub closed spec fn spec_height(self) -> u16 {
        self.height
    }

    pub closed spec fn spec_block(self) -> Id {
        self.block
    }

    pub fn new(height: u16, block: Id) -> (r: Self)
        ensures
            r.spec_height() == height,
            r.spec_block() == block,
    {
        Self { height, block }
    }
}

impl From<(u16, Id)> for FlatLayer {
    fn from(value: (u16, Id)) -> (r: Self) {
        Self::new(value.0, value.1)
    }
}

impl vstd::std_specs::convert::FromSpecImpl<(u16, Id)> for FlatLayer {
    open spec fn obeys_from_spec() -> bool {
        true
    }

    closed spec fn from_spec(v: (u16, Id)) -> FlatLayer {
        FlatLayer { height: v.0, block: v.1 }
    }
}

/// Where the layer after the first `n` layers starts: each layer starts
/// where the one below it ends, and no layer ends above [`WORLD_TOP`].
pub open spec fn layer_start(layers: Seq<FlatLayer>, n: int) -> int
    decreases n, 0int,
{
    if n <= 0 {
        WORLD_BOTTOM as int
    } else {
        layer_end(layers, n - 1)
    }
}

/// Where layer `n` ends.
pub open spec fn layer_end(layers: Seq<FlatLayer>, n: int) -> int
    decreases n, 1int,
{
    let start = layer_start(layers, n);
    let end = start + layers[n].spec_height();
    if end < WORLD_TOP {
        end
    } else {
        WORLD_TOP as int
    }
}

/// Every layer starts at or above the world's bottom and ends at or below
/// its top.
proof fn lemma_layer_bounds(layers: Seq<FlatLayer>, n: int)
    requires
        0 <= n,
    ensures
        WORLD_BOTTOM <= layer_start(layers, n) <= WORLD_TOP,
    decreases n,
{
    if n > 0 {
        lemma_layer_bounds(layers, n - 1);
    }
}

/// Fills each column of the world with the layers, bottom up.
pub struct FlatWorldGenerator {
    layers: Vec<FlatLayer>,
}

impl FlatWorldGenerator {
    /// The layers, bottom first.
    pub closed spec fn spec_layers(&self) -> Seq<FlatLayer> {
        self.layers@
    }

    pub fn new(layers: Vec<FlatLayer>) -> (r: Self)
        ensures
            r.spec_layers() == layers@,
    {
        Self { layers }
    }

    /// The block range `start .. end` of each layer in a column, with its
    /// block; the first layer starts at [`WORLD_BOTTOM`] and ranges are cut
    /// at [`WORLD_TOP`] (the ones above it are empty).
    pub fn layer_ranges(&self) -> (r: Vec<(i32, i32, Id)>)
        ensures
            r@.len() == self.spec_layers().len(),
            forall|i: int| 0 <= i < r@.len() ==> {
                &&& (#[trigger] r@[i]).0 == layer_start(self.spec_layers(), i)
                &&& r@[i].1 == layer_end(self.spec_layers(), i)
                &&& r@[i].2 == self.spec_layers()[i].spec_block()
            },
    {
        let mut result: Vec<(i32, i32, Id)> = Vec::new();
        let mut y_bottom: i32 = WORLD_BOTTOM;
        let mut i: usize = 0;
        while i < self.layers.len()
            invariant
                i <= self.layers@.len(),
                result@.len() == i,
                y_bottom == layer_start(self.layers@, i as int),
                forall|k: int| 0 <= k < i ==> {
                    &&& (#[trigger] result@[k]).0 == layer_start(self.layers@, k)
                    &&& result@[k].1 == layer_end(self.layers@, k)
                    &&& result@[k].2 == self.layers@[k].spec_block()
                },
            decreases self.layers@.len() - i,
        {
            proof {
                lemma_layer_bounds(self.layers@, i as int);
            }
            let layer = self.layers[i];
            let end = y_bottom + layer.height as i32;
            let y_top = if end < WORLD_TOP { end } else { WORLD_TOP };
            result.push((y_bottom, y_top, layer.block));
            y_bottom = y_top;
            i = i + 1;
        }
        result
    }
}

} // verus!
