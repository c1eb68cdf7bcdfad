//! Allocation of block ranges in a region file: a list of unused ranges
//! and the open-ended range at the end of the file.
use vstd::prelude::*;
use vstd::relations::{sorted_by, total_ordering};
use crate::error::Error;
use crate::regiontable::RegionTable;
use crate::sectoroffset::{spec_block_count, BlockSize, SectorOffset};

verus! {

/// A range of blocks `start .. end`.
#[derive(Debug, Default, Clone, Copy, PartialEq, Eq, PartialOrd, Ord, Hash, Structural)]
pub struct ManagedSector {
    pub start: u32,
    pub end: u32,
}

/// The sector offset that [`SectorOffset::new`] builds.
pub open spec fn spec_sector_offset(size: BlockSize, start: u32) -> SectorOffset {
    SectorOffset((start << 8u32) | (size.0 as u32))
}

/// The range of blocks a sector offset points to.
pub open spec fn spec_sector_of(o: SectorOffset) -> ManagedSector {
    ManagedSector {
        start: o.spec_block_offset(),
        end: (o.spec_block_offset() + spec_block_count(o.spec_block_size())) as u32,
    }
}

/// The range a sector offset points to does not end before it starts.
pub proof fn lemma_sector_of_ordered(o: SectorOffset)
    ensures
        o.spec_block_offset() < 0x100_0000,
        spec_sector_of(o).start == o.spec_block_offset(),
        spec_sector_of(o).end == o.spec_block_offset() + spec_block_count(o.spec_block_size()),
        spec_sector_of(o).start <= spec_sector_of(o).end,
{
    let v = o.0;
    assert(v >> 8u32 < 0x100_0000u32) by (bit_vector);
    crate::sectoroffset::lemma_block_count_bound(o.spec_block_size().0);
}

/// The number of blocks in a range whose start is not past its end.
pub open spec fn sector_size(s: ManagedSector) -> int {
    s.end - s.start
}

impl ManagedSector {
    /// The range that stands for the region header (timestamps and
    /// offsets) when the unused ranges are rebuilt from a sector table.
    pub fn header() -> (r: Self)
        ensures
            r == (ManagedSector { start: 0, end: 12288 }),
    {
        Self { start: 0, end: 12288 }
    }

    pub fn new(start: u32, end: u32) -> (r: Self)
        ensures
            r == (ManagedSector { start, end }),
    {
        Self { start, end }
    }

    pub fn is_empty(self) -> (r: bool)
        ensures
            r == (self.start == self.end),
    {
        self.start == self.end
    }

    pub fn not_empty(self) -> (r: bool)
        ensures
            r == (self.start != self.end),
    {
        self.start != self.end
    }

    /// The number of blocks in the range.
    pub fn size(self) -> (r: u32)
        requires
            self.start <= self.end,
        ensures
            r == sector_size(self),
    {
        self.end - self.start
    }

    /// Takes a [`SectorOffset`] of the given size from the front of this
    /// range, or returns `None` (changing nothing) when the range is too
    /// small or would start past block `0x1000000` (2^24): no allocation
    /// starts beyond 2^24.
    pub fn allocate(&mut self, size: BlockSize) -> (r: Option<SectorOffset>)
        requires
            old(self).start + spec_block_count(size) <= u32::MAX,
        ensures
            ({
                let new_start = old(self).start + spec_block_count(size);
                if new_start > old(self).end || old(self).start > 0x1000000 {
                    r is None && *final(self) == *old(self)
                } else {
                    r == Some(spec_sector_offset(size, old(self).start))
                        && *final(self) == (ManagedSector { start: new_start as u32, end: old(self).end })
                }
            }),
    {
        let block_count = size.block_count();
        let new_start = self.start + block_count as u32;
        if new_start > self.end || self.start > 0x1000000 {
            return None;
        }
        let start = self.start;
        self.start = new_start;
        Some(SectorOffset::new(size, start))
    }

    /// Joins an adjacent range into this one.
    pub fn absorb(&mut self, other: Self)
        requires
            old(self).end == other.start || old(self).start == other.end,
        ensures
            final(self).start == if old(self).start <= other.start { old(self).start } else { other.start },
            final(self).end == if old(self).end >= other.end { old(self).end } else { other.end },
    {
        self.start = if self.start <= other.start { self.start } else { other.start };
        self.end = if self.end >= other.end { self.end } else { other.end };
    }

    /// Splits off the first `sector_count` blocks.
    pub fn split_left(self, sector_count: u32) -> (r: (Self, Self))
        requires
            self.start <= self.end,
            sector_count <= sector_size(self),
        ensures
            r.0 == (ManagedSector { start: self.start, end: (self.start + sector_count) as u32 }),
            r.1 == (ManagedSector { start: (self.start + sector_count) as u32, end: self.end }),
    {
        let middle = self.start + sector_count;
        (ManagedSector::new(self.start, middle), ManagedSector::new(middle, self.end))
    }

    /// The byte offset of the range in the file.
    pub fn file_offset(self) -> (r: u64)
        ensures
            r == self.start * 4096,
    {
        self.start as u64 * 4096
    }

    /// The byte length of the range.
    pub fn file_size(self) -> (r: u64)
        requires
            self.start <= self.end,
        ensures
            r == sector_size(self) * 4096,
    {
        self.size() as u64 * 4096
    }

    /// The number of blocks between two ranges that do not touch or overlap.
    pub fn gap(self, other: Self) -> (r: Option<u32>)
        ensures
            r == if self.end < other.start {
                Some((other.start - self.end) as u32)
            } else if other.end < self.start {
                Some((self.start - other.end) as u32)
            } else {
                None::<u32>
            },
    {
        if self.end < other.start {
            Some(other.start - self.end)
        } else if other.end < self.start {
            Some(self.start - other.end)
        } else {
            None
        }
    }
}

impl From<SectorOffset> for ManagedSector {
    fn from(value: SectorOffset) -> (r: Self) {
        let start = value.block_offset();
        let size = value.block_size().block_count() as u32;
        proof {
            crate::sectoroffset::lemma_block_count_bound(value.spec_block_size().0);
        }
        let end = start + size;
        Self::new(start, end)
    }
}

impl vstd::std_specs::convert::FromSpecImpl<SectorOffset> for ManagedSector {
    open spec fn obeys_from_spec() -> bool {
        true
    }

    open spec fn from_spec(v: SectorOffset) -> ManagedSector {
        spec_sector_of(v)
    }
}

/// `s` with element `i` replaced by the last element and the last dropped
/// (what `Vec::swap_remove` does).
pub open spec fn seq_swap_remove(s: Seq<ManagedSector>, i: int) -> Seq<ManagedSector> {
    s.update(i, s.last()).drop_last()
}

/// `i` is the index of the first range of `s` that satisfies `p` (which
/// also sees the index), or the length of `s` when none does.
pub open spec fn is_first(s: Seq<ManagedSector>, p: spec_fn(int, ManagedSector) -> bool, i: int) -> bool {
    &&& 0 <= i <= s.len()
    &&& i < s.len() ==> p(i, s[i])
    &&& forall|j: int| 0 <= j < i ==> !p(j, #[trigger] s[j])
}

/// The index of the first range of `s` that satisfies `p` (the length of
/// `s` when none does).
pub open spec fn first_index(s: Seq<ManagedSector>, p: spec_fn(int, ManagedSector) -> bool) -> int {
    choose|i: int| is_first(s, p, i)
}

/// The first-index property pins the index down.
pub proof fn lemma_first_index(s: Seq<ManagedSector>, p: spec_fn(int, ManagedSector) -> bool, i: int)
    requires
        is_first(s, p, i),
    ensures
        first_index(s, p) == i,
{
    let k = first_index(s, p);
    assert(is_first(s, p, k));
    if k < i {
        assert(!p(k, s[k]));
    } else if i < k {
        assert(!p(i, s[i]));
    }
}

/// Ranges with at least `c` blocks.
pub open spec fn fits(c: int) -> spec_fn(int, ManagedSector) -> bool {
    |j: int, m: ManagedSector| sector_size(m) >= c
}

/// Ranges that end at `v`, other than the one at index `k`.
pub open spec fn ends_at(v: u32, k: int) -> spec_fn(int, ManagedSector) -> bool {
    |j: int, m: ManagedSector| m.end == v && j != k
}

/// Ranges that start at `v`, other than the ones at indices `k1` and `k2`.
pub open spec fn starts_at(v: u32, k1: int, k2: int) -> spec_fn(int, ManagedSector) -> bool {
    |j: int, m: ManagedSector| m.start == v && j != k1 && j != k2
}

/// Every range starts no later than it ends.
pub open spec fn ranges_ordered(s: Seq<ManagedSector>) -> bool {
    forall|i: int| 0 <= i < s.len() ==> (#[trigger] s[i]).start <= s[i].end
}

/// The smallest block size (in encoding order) holding `n` blocks.
pub open spec fn spec_required(n: int) -> BlockSize {
    choose|b: BlockSize| spec_block_count(b) >= n && forall|x: u8| x < b.0 ==> spec_block_count(BlockSize(x)) < n
}

/// [`BlockSize::required`] gives the size that [`spec_required`] names.
pub proof fn lemma_required_is_spec(n: int, b: BlockSize)
    requires
        spec_block_count(b) >= n,
        forall|x: u8| x < b.0 ==> spec_block_count(BlockSize(x)) < n,
    ensures
        spec_required(n) == b,
{
    lemma_required_unique(n, b);
}

/// [`BlockSize::required`] gives the size that [`spec_required`] names.
proof fn lemma_required_unique(n: int, b: BlockSize)
    requires
        spec_block_count(b) >= n,
        forall|x: u8| x < b.0 ==> spec_block_count(BlockSize(x)) < n,
    ensures
        spec_required(n) == b,
{
    let k = spec_required(n);
    assert(spec_block_count(k) >= n && forall|x: u8| x < k.0 ==> spec_block_count(BlockSize(x)) < n);
    if k.0 < b.0 {
        assert(spec_block_count(BlockSize(k.0)) < n);
    } else if b.0 < k.0 {
        assert(spec_block_count(BlockSize(b.0)) < n);
    }
}

/// The unused ranges and end range after `freed` is given back: it is merged
/// with the first unused range ending where it starts and the first one
/// starting where it ends (neither being the range at index `skip`), and
/// then with the end range if it reaches it, or else added to the list.
pub open spec fn spec_merge_free(u: Seq<ManagedSector>, end: ManagedSector, freed: ManagedSector, skip: int) -> (Seq<ManagedSector>, ManagedSector) {
    let l = first_index(u, ends_at(freed.start, skip));
    let r = first_index(u, starts_at(freed.end, skip, l));
    let has_l = l < u.len();
    let has_r = r < u.len();
    let merged = ManagedSector {
        start: if has_l && u[l].start < freed.start { u[l].start } else { freed.start },
        end: if has_r && u[r].end > freed.end { u[r].end } else { freed.end },
    };
    let rest = if has_l && has_r {
        seq_swap_remove(seq_swap_remove(u, if l > r { l } else { r }), if l > r { r } else { l })
    } else if has_l {
        seq_swap_remove(u, l)
    } else if has_r {
        seq_swap_remove(u, r)
    } else {
        u
    };
    if merged.end == end.start {
        (rest, ManagedSector {
            start: if end.start <= merged.start { end.start } else { merged.start },
            end: if end.end >= merged.end { end.end } else { merged.end },
        })
    } else {
        (rest.push(merged), end)
    }
}

/// [`spec_merge_free`] with no range skipped.
pub open spec fn spec_release(u: Seq<ManagedSector>, end: ManagedSector, freed: ManagedSector) -> (Seq<ManagedSector>, ManagedSector) {
    spec_merge_free(u, end, freed, -1)
}

/// Moving the data at `free` to a new sector of size `new_size` that does
/// not fit in place: the new sector comes from the first unused range large
/// enough (whose rest stays in the list at the same index) or else from the
/// end range; the old range is then given back as by [`spec_merge_free`]
/// (not merged with the range that was allocated from). `None` when neither
/// has room. The result is the new sector, the unused ranges and the end
/// range.
pub open spec fn spec_reallocate_unchecked(u: Seq<ManagedSector>, end: ManagedSector, free: SectorOffset, new_size: BlockSize) -> Option<(SectorOffset, Seq<ManagedSector>, ManagedSector)> {
    let c = spec_block_count(new_size);
    let f = spec_sector_of(free);
    let a = first_index(u, fits(c));
    if a < u.len() {
        let res = u[a];
        let merged = spec_merge_free(u, end, f, a);
        let list = if sector_size(res) > c {
            merged.0.update(a, ManagedSector { start: (res.start + c) as u32, end: res.end })
        } else {
            seq_swap_remove(merged.0, a)
        };
        Some((spec_sector_offset(new_size, res.start), list, merged.1))
    } else if end.start + c > end.end || end.start > 0x1000000 {
        None
    } else {
        let end1 = ManagedSector { start: (end.start + c) as u32, end: end.end };
        let merged = spec_merge_free(u, end1, f, a);
        Some((spec_sector_offset(new_size, end.start), merged.0, merged.1))
    }
}

/// The conditions under which [`SectorManager::reallocate_unchecked`]
/// completes: the end range does not overflow, and the index of the range
/// allocated from is still in the list after the old range is given back.
pub open spec fn reallocate_unchecked_ok(u: Seq<ManagedSector>, end: ManagedSector, free: SectorOffset, new_size: BlockSize) -> bool {
    let c = spec_block_count(new_size);
    let f = spec_sector_of(free);
    let a = first_index(u, fits(c));
    &&& a == u.len() ==> end.start + c <= u32::MAX
    &&& a < u.len() ==> a < spec_merge_free(u, end, f, a).0.len()
}

/// What [`SectorManager::reallocate`] does.
pub open spec fn spec_reallocate(u: Seq<ManagedSector>, end: ManagedSector, free: SectorOffset, new_size: BlockSize) -> Option<(SectorOffset, Seq<ManagedSector>, ManagedSector)> {
    let fc = spec_block_count(free.spec_block_size());
    let nc = spec_block_count(new_size);
    let f = spec_sector_of(free);
    if new_size.0 == 0 {
        None
    } else if fc > nc {
        let rest = ManagedSector { start: (f.start + nc) as u32, end: f.end };
        let released = spec_release(u, end, rest);
        Some((spec_sector_offset(new_size, f.start), released.0, released.1))
    } else if fc == nc {
        Some((free, u, end))
    } else {
        spec_reallocate_unchecked(u, end, free, new_size)
    }
}

/// Where an allocation of `n` blocks starts: at the first unused range
/// large enough for the size that holds `n` blocks, or else at the end
/// range.
pub open spec fn spec_alloc_start(u: Seq<ManagedSector>, end: ManagedSector, n: int) -> u32 {
    let c = spec_block_count(spec_required(n));
    let i = first_index(u, fits(c));
    if i < u.len() { u[i].start } else { end.start }
}

/// What [`SectorManager::allocate`] does: the sector comes from the front
/// of the first unused range large enough (which is dropped when it is used
/// up) or else from the front of the end range. The result is the sector,
/// the unused ranges and the end range.
pub open spec fn spec_allocate(u: Seq<ManagedSector>, end: ManagedSector, n: int) -> (SectorOffset, Seq<ManagedSector>, ManagedSector) {
    let size = spec_required(n);
    let c = spec_block_count(size);
    let i = first_index(u, fits(c));
    if i < u.len() {
        (
            spec_sector_offset(size, u[i].start),
            if sector_size(u[i]) == c {
                seq_swap_remove(u, i)
            } else {
                u.update(i, ManagedSector { start: (u[i].start + c) as u32, end: u[i].end })
            },
            end,
        )
    } else {
        (
            spec_sector_offset(size, end.start),
            u,
            ManagedSector { start: (end.start + c) as u32, end: end.end },
        )
    }
}

/// The order in which the used ranges are visited: by start, then by end
/// (the order that `derive(Ord)` gives the two fields).
pub open spec fn sector_leq(a: ManagedSector, b: ManagedSector) -> bool {
    a.start < b.start || (a.start == b.start && a.end <= b.end)
}

/// [`sector_leq`] as a relation.
pub open spec fn sector_order() -> spec_fn(ManagedSector, ManagedSector) -> bool {
    |a: ManagedSector, b: ManagedSector| sector_leq(a, b)
}

/// [`sector_leq`] is a total order.
pub proof fn lemma_sector_order_total()
    ensures
        total_ordering(sector_order()),
{
}

/// The ranges of the table entries that hold at least one block, in table
/// order.
pub open spec fn used_sectors(t: Seq<SectorOffset>) -> Seq<ManagedSector>
    decreases t.len(),
{
    if t.len() == 0 {
        Seq::empty()
    } else {
        let rest = used_sectors(t.drop_last());
        let s = spec_sector_of(t.last());
        if s.start != s.end {
            rest.push(s)
        } else {
            rest
        }
    }
}

/// Two ranges that neither touch nor overlap (what [`ManagedSector::gap`]
/// returns `Some` for).
pub open spec fn spec_has_gap(a: ManagedSector, b: ManagedSector) -> bool {
    a.end < b.start || b.end < a.start
}

/// Walks the ranges in order, starting from the header range: between a
/// range and the next one that neither touch nor overlap it the space is
/// unused. The last range visited becomes the end range.
pub open spec fn fold_sectors(s: Seq<ManagedSector>) -> (Seq<ManagedSector>, ManagedSector)
    decreases s.len(),
{
    if s.len() == 0 {
        (Seq::empty(), ManagedSector { start: 0, end: 12288 })
    } else {
        let (unused, previous) = fold_sectors(s.drop_last());
        let sector = s.last();
        if spec_has_gap(previous, sector) {
            (unused.push(ManagedSector { start: previous.end, end: sector.start }), sector)
        } else {
            (unused, sector)
        }
    }
}

/// Unused ranges of a region file, and the range from the end of the used
/// blocks to the end of the addressable space.
#[derive(Debug)]
pub struct SectorManager {
    unused: Vec<ManagedSector>,
    end_sector: ManagedSector,
}

impl SectorManager {
    /// The largest sector size in bytes (8033 blocks of 4096 bytes).
    pub const MAX_SECTOR_SIZE: u32 = 32903168;

    /// The unused ranges, in list order.
    pub closed spec fn unused_ranges(&self) -> Seq<ManagedSector> {
        self.unused@
    }

    /// The range at the end of the file.
    pub closed spec fn end_range(&self) -> ManagedSector {
        self.end_sector
    }

    /// No unused range starts after it ends.
    pub open spec fn wf(&self) -> bool {
        ranges_ordered(self.unused_ranges())
    }

    /// A manager of an empty file: everything from block 3 (after the
    /// header) is at the end.
    pub fn new() -> (r: Self)
        ensures
            r.unused_ranges() == Seq::<ManagedSector>::empty(),
            r.end_range() == (ManagedSector { start: 3, end: u32::MAX }),
            r.wf(),
    {
        Self { unused: Vec::new(), end_sector: ManagedSector::new(3, u32::MAX) }
    }

    /// Inserts `sector` into a list sorted by [`sector_leq`], before the
    /// first range that comes after it.
    fn insert_sorted(list: &mut Vec<ManagedSector>, sector: ManagedSector) -> (p: usize)
        requires
            sorted_by(old(list)@, sector_order()),
        ensures
            p <= old(list)@.len(),
            final(list)@ == old(list)@.insert(p as int, sector),
            sorted_by(final(list)@, sector_order()),
    {
        let ghost l = list@;
        let mut p: usize = 0;
        while p < list.len()
            invariant
                p <= l.len(),
                list@ == l,
                forall|j: int| 0 <= j < p ==> sector_leq(#[trigger] l[j], sector),
            ensures
                p <= l.len(),
                list@ == l,
                forall|j: int| 0 <= j < p ==> sector_leq(#[trigger] l[j], sector),
                p < l.len() ==> !sector_leq(l[p as int], sector),
            decreases l.len() - p,
        {
            let s = list[p];
            if !(s.start < sector.start || (s.start == sector.start && s.end <= sector.end)) {
                break;
            }
            p = p + 1;
        }
        list.insert(p, sector);
        proof {
            let n = list@;
            assert(sorted_by(l, sector_order()));
            assert forall|i: int, j: int| 0 <= i < j < n.len() implies #[trigger] sector_order()(n[i], n[j]) by {
                if j < p {
                    assert(sector_order()(l[i], l[j]));
                } else if j == p {
                    assert(sector_leq(l[i], sector));
                } else if i < p {
                    assert(sector_leq(l[i], sector));
                    if p < l.len() {
                        assert(sector_order()(l[p as int], l[j - 1]) || p == j - 1);
                    }
                } else if i == p {
                    if p < l.len() {
                        assert(sector_order()(l[p as int], l[j - 1]) || p == j - 1);
                    }
                } else {
                    assert(sector_order()(l[i - 1], l[j - 1]));
                }
            }
        }
        p
    }

    /// Rebuilds the unused ranges from the sector-offset table of a region
    /// file: the used ranges are sorted and walked from the header range,
    /// and the space between two ranges that do not touch is unused.
    pub fn from_sector_table(table: &RegionTable<SectorOffset>) -> (r: Self)
        ensures
            r.wf(),
            (r.unused_ranges(), r.end_range())
                == fold_sectors(used_sectors(table.entries()).sort_by(sector_order())),
    {
        let entries = table.iter();
        let ghost t = entries@;
        let mut sorted: Vec<ManagedSector> = Vec::new();
        let mut i: usize = 0;
        while i < entries.len()
            invariant
                i <= t.len(),
                entries@ == t,
                sorted_by(sorted@, sector_order()),
                sorted@.to_multiset() == used_sectors(t.take(i as int)).to_multiset(),
                ranges_ordered(sorted@),
            decreases t.len() - i,
        {
            let sector = ManagedSector::from(entries[i]);
            proof {
                lemma_sector_of_ordered(t[i as int]);
                assert(t.take(i + 1).drop_last() =~= t.take(i as int));
                assert(t.take(i + 1).last() == t[i as int]);
            }
            if sector.not_empty() {
                let ghost before = sorted@;
                let p = Self::insert_sorted(&mut sorted, sector);
                proof {
                    assert(used_sectors(t.take(i + 1)) == used_sectors(t.take(i as int)).push(sector));
                    vstd::seq_lib::to_multiset_insert(before, p as int, sector);
                    vstd::seq_lib::to_multiset_build(used_sectors(t.take(i as int)), sector);
                    assert(used_sectors(t.take(i as int)).push(sector).to_multiset()
                        == used_sectors(t.take(i as int)).to_multiset().insert(sector));
                    assert forall|j: int| 0 <= j < sorted@.len() implies (#[trigger] sorted@[j]).start <= sorted@[j].end by {
                        if j < p {
                            assert(sorted@[j] == before[j]);
                        } else if j > p {
                            assert(sorted@[j] == before[j - 1]);
                        }
                    }
                }
            } else {
                assert(used_sectors(t.take(i + 1)) == used_sectors(t.take(i as int)));
            }
            i = i + 1;
        }
        proof {
            assert(t.take(t.len() as int) =~= t);
            let used = used_sectors(t);
            lemma_sector_order_total();
            used.lemma_sort_by_ensures(sector_order());
            vstd::seq_lib::lemma_sorted_unique(sorted@, used.sort_by(sector_order()), sector_order());
        }
        let mut unused: Vec<ManagedSector> = Vec::new();
        let mut previous = ManagedSector::header();
        let mut k: usize = 0;
        while k < sorted.len()
            invariant
                k <= sorted@.len(),
                (unused@, previous) == fold_sectors(sorted@.take(k as int)),
                ranges_ordered(unused@),
                ranges_ordered(sorted@),
                sorted_by(sorted@, sector_order()),
                previous.start <= previous.end,
                k == 0 ==> previous.start == 0,
                k > 0 ==> previous == sorted@[k - 1],
            decreases sorted@.len() - k,
        {
            let sector = sorted[k];
            proof {
                assert(sorted@.take(k + 1).drop_last() =~= sorted@.take(k as int));
                assert(sorted@.take(k + 1).last() == sorted@[k as int]);
                assert(sector.start <= sector.end);
                if k > 0 {
                    assert(sector_order()(sorted@[k - 1], sorted@[k as int]));
                }
            }
            if previous.gap(sector).is_some() {
                unused.push(ManagedSector::new(previous.end, sector.start));
            }
            previous = sector;
            k = k + 1;
        }
        proof {
            assert(sorted@.take(sorted@.len() as int) =~= sorted@);
        }
        Self { unused, end_sector: previous }
    }

    /// Index of the first unused range with at least `count` blocks (the
    /// list length when there is none).
    fn find_fit(&self, count: u64) -> (i: usize)
        requires
            self.wf(),
        ensures
            is_first(self.unused_ranges(), fits(count as int), i as int),
    {
        let mut i: usize = 0;
        while i < self.unused.len()
            invariant
                i <= self.unused@.len(),
                self.wf(),
                forall|j: int| 0 <= j < i ==> !fits(count as int)(j, #[trigger] self.unused@[j]),
            decreases self.unused@.len() - i,
        {
            let sector = self.unused[i];
            assert(sector == self.unused@[i as int]);
            if sector.size() as u64 >= count {
                return i;
            }
            i = i + 1;
        }
        i
    }

    /// Allocates a sector that holds `blocks_required` blocks, from the
    /// first unused range large enough or else from the end range.
    pub fn allocate(&mut self, blocks_required: u16) -> (r: SectorOffset)
        requires
            old(self).wf(),
            blocks_required <= BlockSize::MAX_BLOCK_COUNT,
            ({
                let c = spec_block_count(spec_required(blocks_required as int));
                first_index(old(self).unused_ranges(), fits(c)) == old(self).unused_ranges().len() ==> {
                    &&& old(self).end_range().start + c <= old(self).end_range().end
                    &&& old(self).end_range().start <= 0x1000000
                }
            }),
        ensures
            final(self).wf(),
            (r, final(self).unused_ranges(), final(self).end_range())
                == spec_allocate(old(self).unused_ranges(), old(self).end_range(), blocks_required as int),
    {
        let block_size = BlockSize::required(blocks_required);
        proof {
            lemma_required_unique(blocks_required as int, block_size);
            crate::sectoroffset::lemma_block_count_bound(block_size.0);
        }
        let block_count = block_size.block_count();
        let i = self.find_fit(block_count);
        proof {
            lemma_first_index(self.unused@, fits(block_count as int), i as int);
        }
        if i < self.unused.len() {
            let sector = self.unused[i];
            let (result, new_sector) = sector.split_left(block_count as u32);
            if new_sector.is_empty() {
                self.unused.swap_remove(i);
            } else {
                self.unused.set(i, new_sector);
            }
            proof {
                assert forall|j: int| 0 <= j < self.unused@.len() implies (#[trigger] self.unused@[j]).start <= self.unused@[j].end by {
                    assert(ranges_ordered(old(self).unused@));
                    if j == i {
                    } else {
                        assert(old(self).unused@[old(self).unused@.len() - 1].start <= old(self).unused@[old(self).unused@.len() - 1].end);
                    }
                }
            }
            SectorOffset::new(block_size, result.start)
        } else {
            match self.end_sector.allocate(block_size) {
                Some(offset) => offset,
                None => {
                    assert(false);
                    SectorOffset(0)
                },
            }
        }
    }
    /// Scans the unused ranges for the first one with at least `count`
    /// blocks (when `count` is given), the first other one ending where
    /// `sector` starts and the first other one starting where it ends.
    fn scan(&self, count: Option<u64>, sector: ManagedSector) -> (r: (Option<usize>, Option<usize>, Option<usize>))
        requires
            self.wf(),
        ensures
            ({
                let u = self.unused_ranges();
                let a = match r.0 { Some(i) => i as int, None => u.len() as int };
                let l = match r.1 { Some(i) => i as int, None => u.len() as int };
                let x = match r.2 { Some(i) => i as int, None => u.len() as int };
                let skip = if count is Some { a } else { -1 };
                &&& count is None ==> r.0 is None
                &&& count matches Some(c) ==> is_first(u, fits(c as int), a)
                &&& is_first(u, ends_at(sector.start, skip), l)
                &&& is_first(u, starts_at(sector.end, skip, l), x)
                &&& r.0 matches Some(i) ==> i < u.len()
                &&& r.1 matches Some(i) ==> i < u.len() && u[i as int].end == sector.start
                &&& r.2 matches Some(i) ==> i < u.len() && u[i as int].start == sector.end
            }),
    {
        let ghost u = self.unused@;
        let mut alloc: Option<usize> = None;
        let mut left: Option<usize> = None;
        let mut right: Option<usize> = None;
        let mut i: usize = 0;
        while i < self.unused.len()
            invariant
                i <= u.len(),
                u == self.unused@,
                self.wf(),
                count is None ==> alloc is None,
                ({
                    let skip = if count is Some && alloc is Some { alloc.unwrap() as int } else { -1 };
                    let lft = match left { Some(l) => l as int, None => u.len() as int };
                    &&& count matches Some(c) ==> match alloc {
                        Some(a) => a < i && is_first(u, fits(c as int), a as int),
                        None => forall|j: int| 0 <= j < i ==> !fits(c as int)(j, #[trigger] u[j]),
                    }
                    &&& match left {
                        Some(l) => l < i && u[l as int].end == sector.start && l != skip
                            && forall|j: int| 0 <= j < l ==> !ends_at(sector.start, skip)(j, #[trigger] u[j]),
                        None => forall|j: int| 0 <= j < i ==> !ends_at(sector.start, skip)(j, #[trigger] u[j]),
                    }
                    &&& match right {
                        Some(x) => x < i && u[x as int].start == sector.end && x != skip && x != lft
                            && forall|j: int| 0 <= j < x ==> !starts_at(sector.end, skip, lft)(j, #[trigger] u[j]),
                        None => forall|j: int| 0 <= j < i ==> !starts_at(sector.end, skip, lft)(j, #[trigger] u[j]),
                    }
                }),
            decreases u.len() - i,
        {
            let s = self.unused[i];
            assert(s == u[i as int]);
            assert(s.start <= s.end);
            let claimed_alloc = match count {
                Some(c) => alloc.is_none() && s.size() as u64 >= c,
                None => false,
            };
            if claimed_alloc {
                alloc = Some(i);
            } else if left.is_none() && s.end == sector.start {
                left = Some(i);
            } else if right.is_none() && s.start == sector.end {
                right = Some(i);
            }
            i = i + 1;
        }
        (alloc, left, right)
    }

    /// Merges `sector` with the unused ranges at `left` (ending where it
    /// starts) and `right` (starting where it ends), then with the end range
    /// if it reaches it, or else adds it to the list.
    fn merge_free(&mut self, sector: ManagedSector, left: Option<usize>, right: Option<usize>, skip: Ghost<int>)
        requires
            old(self).wf(),
            sector.start <= sector.end,
            ({
                let u = old(self).unused_ranges();
                let l = match left { Some(i) => i as int, None => u.len() as int };
                let x = match right { Some(i) => i as int, None => u.len() as int };
                &&& is_first(u, ends_at(sector.start, skip@), l)
                &&& is_first(u, starts_at(sector.end, skip@, l), x)
                &&& left matches Some(i) ==> i < u.len() && u[i as int].end == sector.start
                &&& right matches Some(i) ==> i < u.len() && u[i as int].start == sector.end
            }),
        ensures
            final(self).wf(),
            (final(self).unused_ranges(), final(self).end_range())
                == spec_merge_free(old(self).unused_ranges(), old(self).end_range(), sector, skip@),
    {
        let ghost u = self.unused@;
        let mut freed = sector;
        proof {
            let l = match left { Some(l) => l as int, None => u.len() as int };
            let r = match right { Some(x) => x as int, None => u.len() as int };
            lemma_first_index(u, ends_at(sector.start, skip@), l);
            lemma_first_index(u, starts_at(sector.end, skip@, l), r);
            if l < u.len() {
                assert(u[l].start <= u[l].end);
            }
            if r < u.len() {
                assert(u[r].start <= u[r].end);
            }
        }
        match (left, right) {
            (Some(left), Some(right)) => {
                let hi = if left > right { left } else { right };
                let lo = if left > right { right } else { left };
                let a = self.unused.swap_remove(hi);
                freed.absorb(a);
                let b = self.unused.swap_remove(lo);
                freed.absorb(b);
            },
            (Some(index), None) => {
                let a = self.unused.swap_remove(index);
                freed.absorb(a);
            },
            (None, Some(index)) => {
                let a = self.unused.swap_remove(index);
                freed.absorb(a);
            },
            _ => {},
        }
        proof {
            assert forall|j: int| 0 <= j < self.unused@.len() implies (#[trigger] self.unused@[j]).start <= self.unused@[j].end by {
                assert(ranges_ordered(u));
                if u.len() >= 1 {
                    assert(u[u.len() - 1].start <= u[u.len() - 1].end);
                }
                if u.len() >= 2 {
                    assert(u[u.len() - 2].start <= u[u.len() - 2].end);
                }
            }
        }
        if freed.end == self.end_sector.start {
            self.end_sector.absorb(freed);
        } else {
            self.unused.push(freed);
        }
    }

    /// Gives a range back: it is merged with the unused ranges next to it
    /// and with the end range if it reaches it, or else added to the list.
    pub fn deallocate(&mut self, sector: ManagedSector)
        requires
            old(self).wf(),
            sector.start <= sector.end,
        ensures
            final(self).wf(),
            sector.start == sector.end ==> final(self).unused_ranges() == old(self).unused_ranges()
                && final(self).end_range() == old(self).end_range(),
            sector.start < sector.end ==> (final(self).unused_ranges(), final(self).end_range())
                == spec_release(old(self).unused_ranges(), old(self).end_range(), sector),
    {
        if sector.size() == 0 {
            return;
        }
        let (_, left, right) = self.scan(None, sector);
        self.merge_free(sector, left, right, Ghost(-1));
    }

    /// Moves the data at `free` to a sector of size `new_size` allocated
    /// elsewhere, giving the old range back.
    fn reallocate_unchecked(&mut self, free: SectorOffset, new_size: BlockSize) -> (r: Option<SectorOffset>)
        requires
            old(self).wf(),
            reallocate_unchecked_ok(old(self).unused_ranges(), old(self).end_range(), free, new_size),
        ensures
            final(self).wf(),
            match spec_reallocate_unchecked(old(self).unused_ranges(), old(self).end_range(), free, new_size) {
                Some((sector, list, end)) => r == Some(sector) && final(self).unused_ranges() == list
                    && final(self).end_range() == end,
                None => r is None && final(self).unused_ranges() == old(self).unused_ranges()
                    && final(self).end_range() == old(self).end_range(),
            },
    {
        let ghost u = self.unused@;
        proof {
            crate::sectoroffset::lemma_block_count_bound(new_size.0);
        }
        let count = new_size.block_count();
        let freed = ManagedSector::from(free);
        proof {
            lemma_sector_of_ordered(free);
        }
        let (alloc, left, right) = self.scan(Some(count), freed);
        let ghost a = match alloc { Some(i) => i as int, None => u.len() as int };
        proof {
            lemma_first_index(u, fits(count as int), a);
        }
        let (sector, replacement, index) = match alloc {
            Some(index) => {
                let result = self.unused[index];
                assert(result.start <= result.end);
                if result.size() as u64 > count {
                    let (new, old) = result.split_left(count as u32);
                    (SectorOffset::new(new_size, new.start), Some(old), index)
                } else {
                    (SectorOffset::new(new_size, result.start), None, index)
                }
            },
            None => {
                match self.end_sector.allocate(new_size) {
                    Some(sector) => (sector, None, usize::MAX),
                    None => {
                        return None;
                    },
                }
            },
        };
        self.merge_free(freed, left, right, Ghost(a));
        if alloc.is_some() {
            match replacement {
                Some(old) => {
                    self.unused.set(index, old);
                },
                None => {
                    self.unused.swap_remove(index);
                },
            }
            proof {
                assert forall|j: int| 0 <= j < self.unused@.len() implies (#[trigger] self.unused@[j]).start <= self.unused@[j].end by {
                }
            }
        }
        Some(sector)
    }

    /// Whether [`SectorManager::reallocate`] can run on these arguments:
    /// when the data has to move, the end range must not overflow and the
    /// range it would be moved to must still be in the list after the old
    /// range is given back.
    pub fn reallocation_fits(&self, free: SectorOffset, new_size: BlockSize) -> (r: bool)
        requires
            self.wf(),
        ensures
            r == (new_size.0 != 0 && spec_block_count(free.spec_block_size()) < spec_block_count(new_size)
                ==> reallocate_unchecked_ok(self.unused_ranges(), self.end_range(), free, new_size)),
    {
        proof {
            crate::sectoroffset::lemma_block_count_bound(new_size.0);
            crate::sectoroffset::lemma_block_count_bound(free.spec_block_size().0);
        }
        if new_size.0 == 0 || free.block_size().block_count() >= new_size.block_count() {
            return true;
        }
        let ghost u = self.unused@;
        let count = new_size.block_count();
        let freed = ManagedSector::from(free);
        proof {
            lemma_sector_of_ordered(free);
        }
        let (alloc, left, right) = self.scan(Some(count), freed);
        let ghost a = match alloc { Some(i) => i as int, None => u.len() as int };
        proof {
            lemma_first_index(u, fits(count as int), a);
        }
        match alloc {
            None => self.end_sector.start as u64 + count <= u32::MAX as u64,
            Some(index) => {
                let ghost l = match left { Some(i) => i as int, None => u.len() as int };
                let ghost x = match right { Some(i) => i as int, None => u.len() as int };
                proof {
                    lemma_first_index(u, ends_at(freed.start, a), l);
                    lemma_first_index(u, starts_at(freed.end, a, l), x);
                }
                let merged_end = match right {
                    Some(i) => {
                        let e = self.unused[i].end;
                        if e > freed.end { e } else { freed.end }
                    },
                    None => freed.end,
                };
                let removed: usize = (if left.is_some() { 1 } else { 0 }) + (if right.is_some() { 1 } else { 0 });
                let added: usize = if merged_end == self.end_sector.start { 0 } else { 1 };
                proof {
                    let m = spec_merge_free(u, self.end_sector, freed, a);
                    assert(m.0.len() == u.len() - removed + added);
                }
                (index as u128) + (removed as u128) < (self.unused.len() as u128) + (added as u128)
            },
        }
    }

    /// Moves the data at `free` to a sector of size `new_size`: in place
    /// when it shrinks (giving the tail back) or keeps its size, elsewhere
    /// when it grows. `None` when `new_size` is zero or there is no room.
    pub fn reallocate(&mut self, free: SectorOffset, new_size: BlockSize) -> (r: Option<SectorOffset>)
        requires
            old(self).wf(),
            new_size.0 != 0 && spec_block_count(free.spec_block_size()) < spec_block_count(new_size)
                ==> reallocate_unchecked_ok(old(self).unused_ranges(), old(self).end_range(), free, new_size),
        ensures
            final(self).wf(),
            match spec_reallocate(old(self).unused_ranges(), old(self).end_range(), free, new_size) {
                Some((sector, list, end)) => r == Some(sector) && final(self).unused_ranges() == list
                    && final(self).end_range() == end,
                None => r is None && final(self).unused_ranges() == old(self).unused_ranges()
                    && final(self).end_range() == old(self).end_range(),
            },
    {
        if new_size.0 == 0 {
            return None;
        }
        proof {
            crate::sectoroffset::lemma_block_count_bound(new_size.0);
            crate::sectoroffset::lemma_block_count_bound(free.spec_block_size().0);
        }
        let old_sector = ManagedSector::from(free);
        proof {
            lemma_sector_of_ordered(free);
        }
        let free_count = free.block_size().block_count();
        let new_count = new_size.block_count();
        if free_count > new_count {
            let (new, old) = old_sector.split_left(new_count as u32);
            self.deallocate(old);
            Some(SectorOffset::new(new_size, new.start))
        } else if free_count == new_count {
            Some(free)
        } else {
            self.reallocate_unchecked(free, new_size)
        }
    }

    /// [`SectorManager::reallocate`], with an allocation failure as an error.
    pub fn reallocate_err(&mut self, free: SectorOffset, size: BlockSize) -> (r: Result<SectorOffset, Error>)
        requires
            old(self).wf(),
            size.0 != 0 && spec_block_count(free.spec_block_size()) < spec_block_count(size)
                ==> reallocate_unchecked_ok(old(self).unused_ranges(), old(self).end_range(), free, size),
        ensures
            final(self).wf(),
            match spec_reallocate(old(self).unused_ranges(), old(self).end_range(), free, size) {
                Some((sector, list, end)) => r == Ok::<SectorOffset, Error>(sector) && final(self).unused_ranges() == list
                    && final(self).end_range() == end,
                None => r == Err::<SectorOffset, Error>(Error::AllocationFailure) && final(self).unused_ranges() == old(self).unused_ranges()
                    && final(self).end_range() == old(self).end_range(),
            },
    {
        match self.reallocate(free, size) {
            Some(sector) => Ok(sector),
            None => Err(Error::AllocationFailure),
        }
    }

}

} // verus!
