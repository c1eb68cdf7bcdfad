//! The two tables at the head of a region file: one entry per chunk.
use vstd::prelude::*;
use crate::regioncoord::{spec_region_index, RegionCoord};
use crate::sectoroffset::SectorOffset;
use crate::timestamp::Timestamp;

verus! {

/// A value stored once per chunk at the head of a region file.
pub trait RegionTableItem: Default + Copy {}

impl RegionTableItem for Timestamp {}

impl RegionTableItem for SectorOffset {}

/// 1024 entries, one per chunk of a 32x32 region, indexed by
/// [`RegionCoord::index`].
pub struct RegionTable<T: RegionTableItem> {
    table: Vec<T>,
}

impl<T: RegionTableItem> RegionTable<T> {
    /// The entries in index order.
    pub closed spec fn entries(&self) -> Seq<T> {
        self.table@
    }

    /// A table holds exactly 1024 entries.
    pub open spec fn wf(&self) -> bool {
        self.entries().len() == 1024
    }

    /// A table whose 1024 entries are all one default value.
    pub fn new() -> (r: Self)
        ensures
            r.wf(),
            forall|i: int, j: int| 0 <= i < 1024 && 0 <= j < 1024 ==> r.entries()[i] == r.entries()[j],
    {
        let value = T::default();
        let mut table: Vec<T> = Vec::new();
        let mut i: usize = 0;
        while i < 1024
            invariant
                i <= 1024,
                table@.len() == i,
                forall|j: int| 0 <= j < i ==> table@[j] == value,
            decreases 1024 - i,
        {
            table.push(value);
            i = i + 1;
        }
        Self { table }
    }

    /// A table holding `entries`, in index order.
    pub fn from_entries(entries: Vec<T>) -> (r: Self)
        requires
            entries@.len() == 1024,
        ensures
            r.wf(),
            r.entries() == entries@,
    {
        Self { table: entries }
    }

    /// The entry of the chunk at `(x, y)` (each wrapped into `0 .. 32`).
    pub fn get(&self, x: i32, y: i32) -> (r: T)
        requires
            self.wf(),
        ensures
            r == self.entries()[spec_region_index(x, y)],
    {
        let index = RegionCoord::new(x, y).index();
        self.table[index]
    }

    /// Replaces the entry of the chunk at `(x, y)` and returns the old one.
    pub fn set(&mut self, x: i32, y: i32, value: T) -> (r: T)
        requires
            old(self).wf(),
        ensures
            final(self).wf(),
            r == old(self).entries()[spec_region_index(x, y)],
            final(self).entries() == old(self).entries().update(spec_region_index(x, y), value),
    {
        let index = RegionCoord::new(x, y).index();
        let previous = self.table[index];
        self.table.set(index, value);
        previous
    }

    /// The entries in index order.
    pub fn iter(&self) -> (r: &[T])
        ensures
            r@ == self.entries(),
    {
        self.table.as_slice()
    }
}

impl<T: RegionTableItem> core::ops::Index<RegionCoord> for RegionTable<T> {
    type Output = T;

    fn index(&self, index: RegionCoord) -> (r: &T)
        ensures
            *r == self.entries()[index.value() as int],
    {
        &self.table[index.index()]
    }
}

impl<T: RegionTableItem> vstd::std_specs::core::IndexSpecImpl<RegionCoord> for RegionTable<T> {
    open spec fn index_req(&self, index: &RegionCoord) -> bool {
        self.wf() && index.value() < 1024
    }
}

impl<T: RegionTableItem> core::ops::IndexMut<RegionCoord> for RegionTable<T> {
    fn index_mut(&mut self, index: RegionCoord) -> (r: &mut T)
        requires
            old(self).wf(),
            index.value() < 1024,
        ensures
            *r == old(self).entries()[index.value() as int],
            final(self).entries() == old(self).entries().update(index.value() as int, *final(r)),
    {
        let i = index.index();
        &mut self.table[i]
    }
}

} // verus!
