//! Coordinates of chunks (16x16 columns of blocks).
use vstd::prelude::*;
use crate::coord::{div_i32, rust_div, rust_rem, Coord};
use crate::direction::Cardinal;

verus! {

/// A chunk position: block coordinates divided by 16.
#[derive(Debug, Default, Clone, Copy, PartialEq, Eq, PartialOrd, Ord, Hash, Structural)]
pub struct ChunkCoord {
    pub x: i32,
    pub z: i32,
}

impl ChunkCoord {
    pub fn new(x: i32, z: i32) -> (r: Self)
        ensures
            r == (ChunkCoord { x, z }),
    {
        Self { x, z }
    }

    pub fn xz(self) -> (r: (i32, i32))
        ensures
            r == (self.x, self.z),
    {
        (self.x, self.z)
    }

    /// The block coordinate of the chunk's corner at height 0.
    pub fn block_coord(self) -> (r: Coord)
        requires
            i32::MIN <= self.x * 16 <= i32::MAX,
            i32::MIN <= self.z * 16 <= i32::MAX,
        ensures
            r == (Coord { x: (self.x * 16) as i32, y: 0, z: (self.z * 16) as i32 }),
    {
        Coord::new(self.x * 16, 0, self.z * 16)
    }

    /// The adjacent chunk in a cardinal direction (north is negative z).
    pub fn neighbor(self, direction: Cardinal) -> (r: ChunkCoord)
        requires
            direction == Cardinal::West ==> self.x > i32::MIN,
            direction == Cardinal::East ==> self.x < i32::MAX,
            direction == Cardinal::North ==> self.z > i32::MIN,
            direction == Cardinal::South ==> self.z < i32::MAX,
        ensures
            r == match direction {
                Cardinal::West => ChunkCoord { x: (self.x - 1) as i32, z: self.z },
                Cardinal::North => ChunkCoord { x: self.x, z: (self.z - 1) as i32 },
                Cardinal::East => ChunkCoord { x: (self.x + 1) as i32, z: self.z },
                Cardinal::South => ChunkCoord { x: self.x, z: (self.z + 1) as i32 },
            },
    {
        match direction {
            Cardinal::West => Self::new(self.x - 1, self.z),
            Cardinal::North => Self::new(self.x, self.z - 1),
            Cardinal::East => Self::new(self.x + 1, self.z),
            Cardinal::South => Self::new(self.x, self.z + 1),
        }
    }
}

impl From<(i32, i32)> for ChunkCoord {
    fn from(value: (i32, i32)) -> (r: Self) {
        ChunkCoord::new(value.0, value.1)
    }
}

impl vstd::std_specs::convert::FromSpecImpl<(i32, i32)> for ChunkCoord {
    open spec fn obeys_from_spec() -> bool {
        true
    }

    open spec fn from_spec(v: (i32, i32)) -> ChunkCoord {
        ChunkCoord { x: v.0, z: v.1 }
    }
}

/// The chunk coordinate of two components that fit in `i32`.
pub open spec fn chunk_of(x: int, z: int) -> ChunkCoord {
    ChunkCoord { x: x as i32, z: z as i32 }
}

/// Both components fit in `i32`.
pub open spec fn fits2(x: int, z: int) -> bool {
    i32::MIN <= x <= i32::MAX && i32::MIN <= z <= i32::MAX
}

impl core::ops::Add<ChunkCoord> for ChunkCoord {
    type Output = ChunkCoord;

    fn add(self, rhs: ChunkCoord) -> (r: ChunkCoord) {
        Self::new(self.x + rhs.x, self.z + rhs.z)
    }
}

impl vstd::std_specs::ops::AddSpecImpl<ChunkCoord> for ChunkCoord {
    open spec fn obeys_add_spec() -> bool {
        true
    }

    open spec fn add_req(self, rhs: ChunkCoord) -> bool {
        fits2(self.x + rhs.x, self.z + rhs.z)
    }

    open spec fn add_spec(self, rhs: ChunkCoord) -> ChunkCoord {
        chunk_of(self.x + rhs.x, self.z + rhs.z)
    }
}

impl core::ops::Add<Cardinal> for ChunkCoord {
    type Output = ChunkCoord;

    fn add(self, rhs: Cardinal) -> (r: ChunkCoord) {
        Self::neighbor(self, rhs)
    }
}

impl vstd::std_specs::ops::AddSpecImpl<Cardinal> for ChunkCoord {
    open spec fn obeys_add_spec() -> bool {
        true
    }

    open spec fn add_req(self, rhs: Cardinal) -> bool {
        &&& rhs == Cardinal::West ==> self.x > i32::MIN
        &&& rhs == Cardinal::East ==> self.x < i32::MAX
        &&& rhs == Cardinal::North ==> self.z > i32::MIN
        &&& rhs == Cardinal::South ==> self.z < i32::MAX
    }

    open spec fn add_spec(self, rhs: Cardinal) -> ChunkCoord {
        match rhs {
            Cardinal::West => chunk_of(self.x - 1, self.z as int),
            Cardinal::North => chunk_of(self.x as int, self.z - 1),
            Cardinal::East => chunk_of(self.x + 1, self.z as int),
            Cardinal::South => chunk_of(self.x as int, self.z + 1),
        }
    }
}

impl core::ops::Sub<ChunkCoord> for ChunkCoord {
    type Output = ChunkCoord;

    fn sub(self, rhs: ChunkCoord) -> (r: ChunkCoord) {
        Self::new(self.x - rhs.x, self.z - rhs.z)
    }
}

impl vstd::std_specs::ops::SubSpecImpl<ChunkCoord> for ChunkCoord {
    open spec fn obeys_sub_spec() -> bool {
        true
    }

    open spec fn sub_req(self, rhs: ChunkCoord) -> bool {
        fits2(self.x - rhs.x, self.z - rhs.z)
    }

    open spec fn sub_spec(self, rhs: ChunkCoord) -> ChunkCoord {
        chunk_of(self.x - rhs.x, self.z - rhs.z)
    }
}

impl core::ops::Mul<i32> for ChunkCoord {
    type Output = ChunkCoord;

    fn mul(self, rhs: i32) -> (r: ChunkCoord) {
        Self::new(self.x * rhs, self.z * rhs)
    }
}

impl vstd::std_specs::ops::MulSpecImpl<i32> for ChunkCoord {
    open spec fn obeys_mul_spec() -> bool {
        true
    }

    open spec fn mul_req(self, rhs: i32) -> bool {
        fits2(self.x * rhs, self.z * rhs)
    }

    open spec fn mul_spec(self, rhs: i32) -> ChunkCoord {
        chunk_of(self.x * rhs, self.z * rhs)
    }
}

impl core::ops::Div<i32> for ChunkCoord {
    type Output = ChunkCoord;

    fn div(self, rhs: i32) -> (r: ChunkCoord) {
        let (x, _) = div_i32(self.x, rhs);
        let (z, _) = div_i32(self.z, rhs);
        Self::new(x, z)
    }
}

impl vstd::std_specs::ops::DivSpecImpl<i32> for ChunkCoord {
    open spec fn obeys_div_spec() -> bool {
        true
    }

    open spec fn div_req(self, rhs: i32) -> bool {
        rhs != 0 && (rhs == -1 ==> self.x != i32::MIN && self.z != i32::MIN)
    }

    open spec fn div_spec(self, rhs: i32) -> ChunkCoord {
        chunk_of(rust_div(self.x as int, rhs as int), rust_div(self.z as int, rhs as int))
    }
}

impl core::ops::Rem<i32> for ChunkCoord {
    type Output = ChunkCoord;

    fn rem(self, rhs: i32) -> (r: ChunkCoord) {
        let (_, x) = div_i32(self.x, rhs);
        let (_, z) = div_i32(self.z, rhs);
        Self::new(x, z)
    }
}

impl vstd::std_specs::ops::RemSpecImpl<i32> for ChunkCoord {
    open spec fn obeys_rem_spec() -> bool {
        true
    }

    open spec fn rem_req(self, rhs: i32) -> bool {
        rhs != 0 && (rhs == -1 ==> self.x != i32::MIN && self.z != i32::MIN)
    }

    open spec fn rem_spec(self, rhs: i32) -> ChunkCoord {
        chunk_of(rust_rem(self.x as int, rhs as int), rust_rem(self.z as int, rhs as int))
    }
}

impl From<ChunkCoord> for (i32, i32) {
    fn from(value: ChunkCoord) -> (r: Self) {
        (value.x, value.z)
    }
}

impl vstd::std_specs::convert::FromSpecImpl<ChunkCoord> for (i32, i32) {
    open spec fn obeys_from_spec() -> bool {
        true
    }

    open spec fn from_spec(v: ChunkCoord) -> (i32, i32) {
        (v.x, v.z)
    }
}

impl core::ops::AddAssign<ChunkCoord> for ChunkCoord {
    fn add_assign(&mut self, rhs: ChunkCoord)
        requires
            fits2(old(self).x + rhs.x, old(self).z + rhs.z),
        ensures
            *final(self) == chunk_of(old(self).x + rhs.x, old(self).z + rhs.z),
    {
        self.x = self.x + rhs.x;
        self.z = self.z + rhs.z;
    }
}

impl core::ops::SubAssign<ChunkCoord> for ChunkCoord {
    fn sub_assign(&mut self, rhs: ChunkCoord)
        requires
            fits2(old(self).x - rhs.x, old(self).z - rhs.z),
        ensures
            *final(self) == chunk_of(old(self).x - rhs.x, old(self).z - rhs.z),
    {
        self.x = self.x - rhs.x;
        self.z = self.z - rhs.z;
    }
}

} // verus!
