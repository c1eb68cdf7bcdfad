//! Coordinates of a chunk inside a 32x32 region.
use vstd::prelude::*;
use crate::sectoroffset::SectorOffset;
use crate::timestamp::Timestamp;

verus! {

/// A chunk position inside a region, packed as `x | z << 5` (5 bits each).
#[derive(Debug, Default, Clone, Copy, PartialEq, Eq, PartialOrd, Ord, Hash)]
pub struct RegionCoord(u16);

/// The packed form of the position `(x, z)`: the low 5 bits of each.
pub open spec fn spec_region_index(x: i32, z: i32) -> int {
    (x & 31i32) + 32 * (z & 31i32)
}

impl RegionCoord {
    /// The packed value.
    pub closed spec fn value(self) -> u16 {
        self.0
    }

    /// The coordinate of `(x, z)`, each wrapped into `0 .. 32`.
    pub fn new(x: i32, z: i32) -> (r: Self)
        ensures
            r.value() == spec_region_index(x, z),
            r.value() < 1024,
    {
        let xl = x & 31;
        let zl = z & 31;
        assert(0 <= xl < 32 && 0 <= zl < 32) by (bit_vector)
            requires
                xl == x & 31i32,
                zl == z & 31i32,
        ;
        let a = xl as u16;
        let b = zl as u16;
        let v = a | (b << 5u16);
        assert(v == a + 32 * b) by (bit_vector)
            requires
                a < 32,
                b < 32,
                v == a | (b << 5u16),
        ;
        RegionCoord(v)
    }

    /// The packed value masked with `0x31` (bits 0, 4 and 5).
    pub fn x(self) -> (r: i32)
        ensures
            r == self.value() & 0x31u16,
    {
        (self.0 & 0x31) as i32
    }

    /// The packed value masked with `0x31`, as for [`RegionCoord::x`].
    pub fn z(self) -> (r: i32)
        ensures
            r == self.value() & 0x31u16,
    {
        (self.0 & 0x31) as i32
    }

    /// The index of the chunk in a region table.
    pub fn index(self) -> (r: usize)
        ensures
            r == self.value(),
    {
        self.0 as usize
    }

    /// The byte offset of the chunk's entry in the sector-offset table.
    pub fn sector_offset(self) -> (r: u64)
        ensures
            r == SectorOffset::OFFSET + 4 * self.value(),
    {
        SectorOffset::OFFSET + 4 * self.0 as u64
    }

    /// The byte offset of the chunk's entry in the timestamp table.
    pub fn timestamp_offset(self) -> (r: u64)
        ensures
            r == Timestamp::OFFSET + 8 * self.value(),
    {
        Timestamp::OFFSET + 8 * self.0 as u64
    }
}

impl From<(i32, i32)> for RegionCoord {
    fn from(value: (i32, i32)) -> (r: Self) {
        Self::new(value.0, value.1)
    }
}

impl vstd::std_specs::convert::FromSpecImpl<(i32, i32)> for RegionCoord {
    open spec fn obeys_from_spec() -> bool {
        true
    }

    closed spec fn from_spec(v: (i32, i32)) -> RegionCoord {
        RegionCoord(spec_region_index(v.0, v.1) as u16)
    }
}

impl From<RegionCoord> for (i32, i32) {
    fn from(value: RegionCoord) -> (r: (i32, i32)) {
        (value.x(), value.z())
    }
}

impl vstd::std_specs::convert::FromSpecImpl<RegionCoord> for (i32, i32) {
    open spec fn obeys_from_spec() -> bool {
        true
    }

    open spec fn from_spec(v: RegionCoord) -> (i32, i32) {
        ((v.value() & 0x31u16) as i32, (v.value() & 0x31u16) as i32)
    }
}

} // verus!
