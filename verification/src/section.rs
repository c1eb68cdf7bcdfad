//! A 16x16x16 section of a chunk: its blocks, which faces are hidden, its
//! light levels, its block data and which blocks receive updates. Each
//! part is stored only while some block differs from the default.
use vstd::prelude::*;
use crate::blockdata::{BlockDataContainer, BlockDataRef};
use crate::blocks::Id;
use crate::coord::Coord;
use crate::direction::Direction;
use crate::dirty::Dirty;
use crate::lightargs::clamp15;
use crate::occlusion::Occlusion;
use crate::update::UpdateRef;
use crate::query::{BlockData, BlockLight, Enabled, Query, SkyLight};

verus! {

/// The light level (and maximum) of a block before and after a change.
#[derive(Debug, Clone, Copy, PartialEq, Eq, Hash, Structural)]
pub struct LightChange {
    pub old_max: u8,
    pub old_level: u8,
    pub new_max: u8,
    pub new_level: u8,
}

impl LightChange {
    /// The level changed.
    pub fn changed(self) -> (r: bool)
        ensures
            r == (self.new_level != self.old_level),
    {
        self.new_level != self.old_level
    }

    /// The maximum changed.
    pub fn max_changed(self) -> (r: bool)
        ensures
            r == (self.new_max != self.old_max),
    {
        self.new_max != self.old_max
    }
}

/// The state of a block after a change, if it changed.
#[derive(Debug, Clone, Copy, PartialEq, Eq, Hash, Structural)]
pub enum StateChange {
    Unchanged,
    Changed(Id),
}

impl StateChange {
    /// The state changed.
    pub fn changed(self) -> (r: bool)
        ensures
            r == (self is Changed),
    {
        matches!(self, StateChange::Changed(_))
    }
}

/// A change in a section, and whether the section was marked dirty by it.
#[derive(Debug, Clone, Copy, PartialEq, Eq, Hash)]
pub struct SectionUpdate<T: Clone + Copy + PartialEq + Eq + std::hash::Hash> {
    pub marked_dirty: bool,
    pub change: T,
}

impl<T: Clone + Copy + PartialEq + Eq + std::hash::Hash> SectionUpdate<T> {
    /// A change that marked the section dirty.
    pub fn new_dirty(change: T) -> (r: Self)
        ensures
            r.marked_dirty,
            r.change == change,
    {
        Self { marked_dirty: true, change }
    }

    /// A change that did not mark the section dirty.
    pub fn new(change: T) -> (r: Self)
        ensures
            !r.marked_dirty,
            r.change == change,
    {
        Self { marked_dirty: false, change }
    }
}

/// The number of elements of `s` that satisfy `p`.
pub open spec fn count_where<A>(s: Seq<A>, p: spec_fn(A) -> bool) -> nat
    decreases s.len(),
{
    if s.len() == 0 {
        0
    } else {
        count_where(s.drop_last(), p) + if p(s.last()) {
            1nat
        } else {
            0nat
        }
    }
}

/// Replacing one element changes the count by what the two elements
/// contribute.
pub proof fn lemma_count_update<A>(s: Seq<A>, i: int, v: A, p: spec_fn(A) -> bool)
    requires
        0 <= i < s.len(),
    ensures
        count_where(s.update(i, v), p) + (if p(s[i]) { 1int } else { 0int })
            == count_where(s, p) + (if p(v) { 1int } else { 0int }),
    decreases s.len(),
{
    if i < s.len() - 1 {
        lemma_count_update(s.drop_last(), i, v, p);
        assert(s.update(i, v).drop_last() =~= s.drop_last().update(i, v));
    } else {
        assert(s.update(i, v).drop_last() =~= s.drop_last());
    }
}

/// A count of zero means that no element satisfies `p`; the count is at
/// most the length.
pub proof fn lemma_count_bounds<A>(s: Seq<A>, p: spec_fn(A) -> bool)
    ensures
        count_where(s, p) <= s.len(),
        count_where(s, p) == 0 ==> forall|i: int| 0 <= i < s.len() ==> !p(#[trigger] s[i]),
        (forall|i: int| 0 <= i < s.len() ==> !p(#[trigger] s[i])) ==> count_where(s, p) == 0,
    decreases s.len(),
{
    if s.len() > 0 {
        lemma_count_bounds(s.drop_last(), p);
        assert forall|i: int| 0 <= i < s.len() - 1 implies s.drop_last()[i] == s[i] by {}
    }
}

/// Non-air states.
pub open spec fn non_air() -> spec_fn(Id) -> bool {
    |id: Id| id.0 != 0
}

/// Occlusions with a hidden face.
pub open spec fn occluded() -> spec_fn(Occlusion) -> bool {
    |o: Occlusion| o.0 != 0
}

/// Light levels above zero.
pub open spec fn lit() -> spec_fn(u8) -> bool {
    |l: u8| l != 0
}

/// Light levels below full.
pub open spec fn shaded() -> spec_fn(u8) -> bool {
    |l: u8| l != 15
}

/// The light map of a block or sky light that is made when the first
/// level is stored: every byte 15.
pub open spec fn fresh_light_map() -> Seq<u8> {
    Seq::new(2048, |i: int| 15u8)
}

/// The byte of a light map after level `l` is stored for block `i` (the
/// other half of the byte is kept).
pub open spec fn with_nibble(b: u8, i: int, l: u8) -> u8 {
    if i % 2 == 0 {
        (b & 0xF0u8) | l
    } else {
        (b & 0x0Fu8) | (l << 4u8)
    }
}

/// The greater of two levels.
pub open spec fn max_u8(a: u8, b: u8) -> u8 {
    if a >= b {
        a
    } else {
        b
    }
}

/// The stored map, or the fresh one where none is stored.
pub open spec fn stored_or_fresh(bytes: Option<Seq<u8>>) -> Seq<u8> {
    match bytes {
        Some(b) => b,
        None => fresh_light_map(),
    }
}

/// The map after level `l` is stored for block `i`.
pub open spec fn set_nibble_in(b: Seq<u8>, i: int, l: u8) -> Seq<u8> {
    b.update(i / 2, with_nibble(b[i / 2], i, l))
}

/// Storing a level changes the level of that block alone.
pub proof fn lemma_levels_update(b: Seq<u8>, i: int, l: u8, d: u8)
    requires
        b.len() == 2048,
        0 <= i < 4096,
        l <= 15,
    ensures
        light_levels(Some(set_nibble_in(b, i, l)), d) == light_levels(Some(b), d).update(i, l),
{
    let nb = set_nibble_in(b, i, l);
    assert forall|j: int| 0 <= j < 4096 implies #[trigger] nibble(nb, j) == (if j == i {
        l
    } else {
        nibble(b, j)
    }) by {
        crate::bits::lemma_set_nibble(b[i / 2], l);
    }
    assert(light_levels(Some(nb), d) =~= light_levels(Some(b), d).update(i, l));
}

/// The two sets of counters agree in every place but `k`.
pub open spec fn counts_agree_except(
    a: (u16, u16, u16, u16, u16, u16),
    b: (u16, u16, u16, u16, u16, u16),
    k: int,
) -> bool {
    &&& (k == 0 || a.0 == b.0)
    &&& (k == 1 || a.1 == b.1)
    &&& (k == 2 || a.2 == b.2)
    &&& (k == 3 || a.3 == b.3)
    &&& (k == 4 || a.4 == b.4)
    &&& (k == 5 || a.5 == b.5)
}

/// Data handles that are not null.
pub open spec fn data_present() -> spec_fn(BlockDataRef) -> bool {
    |r: BlockDataRef| r.0 != 0
}

/// Handles that are not null.
pub open spec fn update_enabled() -> spec_fn(UpdateRef) -> bool {
    |r: UpdateRef| r.0 != 0
}

/// The index of the block at `coord` in a section: `x | z << 4 | y << 8`
/// of the low four bits of each.
pub open spec fn spec_section_index(c: Coord) -> int {
    (c.x & 15i32) + 16 * (c.z & 15i32) + 256 * (c.y & 15i32)
}

/// The light level of block `i` in a map of two 4-bit levels per byte
/// (the even block in the low four bits).
pub open spec fn nibble(bytes: Seq<u8>, i: int) -> u8 {
    if i % 2 == 0 {
        bytes[i / 2] & 0xFu8
    } else {
        (bytes[i / 2] >> 4u8) & 0xFu8
    }
}

/// The level of each of the 4096 blocks: read from the map where one is
/// stored, `default` where none is.
pub open spec fn light_levels(bytes: Option<Seq<u8>>, default: u8) -> Seq<u8> {
    Seq::new(
        4096,
        |i: int|
            match bytes {
                Some(b) => nibble(b, i),
                None => default,
            },
    )
}

/// Level 0 cannot be stored over a non-zero level while the counter of
/// lit blocks is 0: the counter would drop below 0.
pub open spec fn set_block_light_pre<T>(a: Section<T>, coord: Coord, level: u8) -> bool {
    clamp15(level) == 0 && a.block_light_bytes() is Some && nibble(
        a.block_light_bytes().unwrap(),
        spec_section_index(coord),
    ) != 0 ==> a.counts().2 > 0
}

/// Level 15 cannot be stored over a lower level while the counter of
/// shaded blocks is 0: the counter would drop below 0.
pub open spec fn set_sky_light_pre<T>(a: Section<T>, coord: Coord, level: u8) -> bool {
    clamp15(level) == 15 && a.sky_light_bytes() is Some && nibble(
        a.sky_light_bytes().unwrap(),
        spec_section_index(coord),
    ) != 15 ==> a.counts().3 > 0
}

/// Data cannot be deleted while the counter of blocks with data is 0: the
/// counter would drop below 0.
pub open spec fn delete_data_pre<T>(a: Section<T>, coord: Coord) -> bool {
    a.data_view()[spec_section_index(coord)] is Some ==> a.counts().4 > 0
}

/// Data can be stored for a block without data only while the data
/// storage has a free slot.
pub open spec fn data_room_pre<T>(a: Section<T>, coord: Coord) -> bool {
    a.data_view()[spec_section_index(coord)] is None ==> a.data_has_room()
}

/// Everything of `b` but its data is that of `a`.
pub open spec fn same_but_data<T>(a: Section<T>, b: Section<T>) -> bool {
    &&& b.blocks_view() == a.blocks_view()
    &&& b.occlusion_view() == a.occlusion_view()
    &&& b.update_refs_view() == a.update_refs_view()
    &&& b.block_light_bytes() == a.block_light_bytes()
    &&& b.sky_light_bytes() == a.sky_light_bytes()
    &&& b.counts() == a.counts()
    &&& b.dirty_flags() == a.dirty_flags()
}

/// What setting the state of a block does to a section and returns.
pub open spec fn set_block_post<T>(a: Section<T>, b: Section<T>, coord: Coord, state: Id, r: SectionUpdate<StateChange>) -> bool {
    &&& ({
        let i = spec_section_index(coord);
        let old_state = a.blocks_view()[i];
        if old_state == state {
            &&& r == SectionUpdate { marked_dirty: false, change: StateChange::Unchanged }
            &&& b.blocks_view() == a.blocks_view()
            &&& b.dirty_flags() == a.dirty_flags()
        } else {
            &&& r == SectionUpdate {
                marked_dirty: !a.dirty_flags().2,
                change: StateChange::Changed(old_state),
            }
            &&& b.blocks_view() == a.blocks_view().update(i, state)
            &&& b.dirty_flags() == (true, a.dirty_flags().1, true)
        }
    })
    &&& b.occlusion_view() == a.occlusion_view()
    &&& b.update_refs_view() == a.update_refs_view()
    &&& b.block_light_bytes() == a.block_light_bytes()
    &&& b.sky_light_bytes() == a.sky_light_bytes()
    &&& b.data_view() == a.data_view()
    &&& b.data_has_room() == a.data_has_room()
    &&& counts_agree_except(b.counts(), a.counts(), 0)
}

/// What showing a face does to a section and returns.
pub open spec fn show_face_post<T>(a: Section<T>, b: Section<T>, coord: Coord, face: Direction, r: SectionUpdate<bool>) -> bool {
    &&& ({
        let i = spec_section_index(coord);
        let o = a.occlusion_view()[i];
        if a.counts().1 == 0 {
            &&& r == SectionUpdate { marked_dirty: false, change: true }
            &&& b.occlusion_view() == a.occlusion_view()
            &&& b.dirty_flags() == a.dirty_flags()
        } else {
            &&& r.change == o.is_hidden(face)
            &&& b.occlusion_view()
                == a.occlusion_view().update(i, Occlusion(o.0 & !(1u8 << crate::direction::direction_index(face))))
            &&& if o.is_hidden(face) {
                &&& !r.marked_dirty
                &&& b.dirty_flags() == a.dirty_flags()
            } else {
                &&& r.marked_dirty == !a.dirty_flags().2
                &&& b.dirty_flags() == (true, a.dirty_flags().1, true)
            }
        }
    })
    &&& b.blocks_view() == a.blocks_view()
    &&& b.update_refs_view() == a.update_refs_view()
    &&& b.block_light_bytes() == a.block_light_bytes()
    &&& b.sky_light_bytes() == a.sky_light_bytes()
    &&& b.data_view() == a.data_view()
    &&& b.data_has_room() == a.data_has_room()
    &&& counts_agree_except(b.counts(), a.counts(), 1)
}

/// What hiding a face does to a section and returns.
pub open spec fn hide_face_post<T>(a: Section<T>, b: Section<T>, coord: Coord, face: Direction, r: SectionUpdate<bool>) -> bool {
    &&& ({
        let i = spec_section_index(coord);
        let o = a.occlusion_view()[i];
        &&& r.change == o.is_hidden(face)
        &&& b.occlusion_view()
            == a.occlusion_view().update(i, Occlusion(o.0 | (1u8 << crate::direction::direction_index(face))))
        &&& if o.is_hidden(face) {
            &&& r.marked_dirty == !a.dirty_flags().2
            &&& b.dirty_flags() == (true, a.dirty_flags().1, true)
        } else {
            &&& !r.marked_dirty
            &&& b.dirty_flags() == a.dirty_flags()
        }
    })
    &&& b.blocks_view() == a.blocks_view()
    &&& b.update_refs_view() == a.update_refs_view()
    &&& b.block_light_bytes() == a.block_light_bytes()
    &&& b.sky_light_bytes() == a.sky_light_bytes()
    &&& b.data_view() == a.data_view()
    &&& b.data_has_room() == a.data_has_room()
    &&& counts_agree_except(b.counts(), a.counts(), 1)
}

/// What setting an update handle does to a section and returns.
pub open spec fn set_update_ref_post<T>(a: Section<T>, b: Section<T>, coord: Coord, value: UpdateRef, r: UpdateRef) -> bool {
    &&& ({
        let i = spec_section_index(coord);
        let o = a.update_refs_view()[i];
        let c = a.counts().5;
        &&& r == o
        &&& if a.update_refs_view() == Seq::new(4096, |k: int| UpdateRef(0)) && c == 0 && value.0 == 0 {
            b.update_refs_view() == a.update_refs_view() && b.counts().5 == 0
        } else if o == value {
            b.update_refs_view() == a.update_refs_view().update(i, value)
                && b.counts().5 == c
        } else if o.0 == 0 {
            b.update_refs_view() == a.update_refs_view().update(i, value)
                && b.counts().5 == c + 1
        } else if c == 1 {
            b.update_refs_view() == Seq::new(4096, |k: int| UpdateRef(0))
                && b.counts().5 == 0
        } else {
            b.update_refs_view() == a.update_refs_view().update(i, value)
                && b.counts().5 == c - 1
        }
    })
    &&& b.blocks_view() == a.blocks_view()
    &&& b.occlusion_view() == a.occlusion_view()
    &&& b.block_light_bytes() == a.block_light_bytes()
    &&& b.sky_light_bytes() == a.sky_light_bytes()
    &&& b.dirty_flags() == a.dirty_flags()
    &&& b.data_view() == a.data_view()
    &&& b.data_has_room() == a.data_has_room()
    &&& counts_agree_except(b.counts(), a.counts(), 5)
}

/// What setting a block light level does to a section and returns.
pub open spec fn set_block_light_post<T>(a: Section<T>, b: Section<T>, coord: Coord, level: u8, r: SectionUpdate<LightChange>) -> bool {
    &&& ({
        let i = spec_section_index(coord);
        let lvl = clamp15(level);
        let bytes = a.block_light_bytes();
        let other = match a.sky_light_bytes() {
            Some(s) => nibble(s, i),
            None => 0u8,
        };
        let c = a.counts();
        if bytes is None && lvl == 0 {
            &&& r == SectionUpdate {
                marked_dirty: false,
                change: LightChange { old_max: other, old_level: 0, new_max: other, new_level: 0 },
            }
            &&& b.block_light_bytes() == bytes
            &&& b.counts() == c
            &&& b.dirty_flags() == a.dirty_flags()
        } else {
            let base = stored_or_fresh(bytes);
            let old_level = nibble(base, i);
            let change = LightChange {
                old_max: max_u8(other, old_level),
                old_level,
                new_max: max_u8(other, lvl),
                new_level: lvl,
            };
            &&& r.change == change
            &&& if lvl == old_level {
                &&& !r.marked_dirty
                &&& b.block_light_bytes() == Some(base)
                &&& b.counts() == c
                &&& b.dirty_flags() == a.dirty_flags()
            } else {
                &&& b.counts() == (
                    c.0,
                    c.1,
                    (if lvl != 0 && old_level == 0 {
                        c.2 + 1
                    } else if lvl == 0 && old_level != 0 {
                        c.2 - 1
                    } else {
                        c.2 as int
                    }) as u16,
                    c.3,
                    c.4,
                    c.5,
                )
                &&& b.block_light_bytes() == if lvl == 0 && c.2 == 1 {
                    None
                } else {
                    Some(set_nibble_in(base, i, lvl))
                }
                &&& if change.new_max != change.old_max {
                    &&& r.marked_dirty == !a.dirty_flags().2
                    &&& b.dirty_flags() == (a.dirty_flags().0, true, true)
                } else {
                    &&& !r.marked_dirty
                    &&& b.dirty_flags() == a.dirty_flags()
                }
            }
        }
    })
    &&& b.blocks_view() == a.blocks_view()
    &&& b.occlusion_view() == a.occlusion_view()
    &&& b.update_refs_view() == a.update_refs_view()
    &&& b.sky_light_bytes() == a.sky_light_bytes()
    &&& b.data_view() == a.data_view()
    &&& b.data_has_room() == a.data_has_room()
}

/// What setting a sky light level does to a section and returns.
pub open spec fn set_sky_light_post<T>(a: Section<T>, b: Section<T>, coord: Coord, level: u8, r: SectionUpdate<LightChange>) -> bool {
    &&& ({
        let i = spec_section_index(coord);
        let lvl = clamp15(level);
        let bytes = a.sky_light_bytes();
        let other = match a.block_light_bytes() {
            Some(s) => nibble(s, i),
            None => 15u8,
        };
        let c = a.counts();
        if bytes is None && lvl == 15 {
            &&& r == SectionUpdate {
                marked_dirty: false,
                change: LightChange { old_max: other, old_level: 15, new_max: other, new_level: 15 },
            }
            &&& b.sky_light_bytes() == bytes
            &&& b.counts() == c
            &&& b.dirty_flags() == a.dirty_flags()
        } else {
            let base = stored_or_fresh(bytes);
            let old_level = nibble(base, i);
            let change = LightChange {
                old_max: max_u8(other, old_level),
                old_level,
                new_max: max_u8(other, lvl),
                new_level: lvl,
            };
            &&& r.change == change
            &&& if lvl == old_level {
                &&& !r.marked_dirty
                &&& b.sky_light_bytes() == Some(base)
                &&& b.counts() == c
                &&& b.dirty_flags() == a.dirty_flags()
            } else {
                &&& b.counts() == (
                    c.0,
                    c.1,
                    c.2,
                    (if lvl != 15 && old_level == 15 {
                        c.3 + 1
                    } else if lvl == 15 && old_level != 15 {
                        c.3 - 1
                    } else {
                        c.3 as int
                    }) as u16,
                    c.4,
                    c.5,
                )
                &&& b.sky_light_bytes() == if lvl == 15 && c.3 == 1 {
                    None
                } else {
                    Some(set_nibble_in(base, i, lvl))
                }
                &&& if change.new_max != change.old_max {
                    &&& r.marked_dirty == !a.dirty_flags().2
                    &&& b.dirty_flags() == (a.dirty_flags().0, true, true)
                } else {
                    &&& !r.marked_dirty
                    &&& b.dirty_flags() == a.dirty_flags()
                }
            }
        }
    })
    &&& b.blocks_view() == a.blocks_view()
    &&& b.occlusion_view() == a.occlusion_view()
    &&& b.update_refs_view() == a.update_refs_view()
    &&& b.block_light_bytes() == a.block_light_bytes()
    &&& b.data_view() == a.data_view()
    &&& b.data_has_room() == a.data_has_room()
}

/// What deleting the data of a block does to a section and returns.
pub open spec fn delete_data_post<T>(a: Section<T>, b: Section<T>, coord: Coord, r: Option<T>) -> bool {
    &&& ({
        let i = spec_section_index(coord);
        let d = a.data_view()[i];
        let c = a.counts();
        &&& r == d
        &&& if d is None {
            &&& b.data_view() == a.data_view()
            &&& b.counts() == c
            &&& b.data_has_room() == a.data_has_room()
        } else {
            &&& b.data_view() == if c.4 == 1 {
                Seq::new(4096, |k: int| None::<T>)
            } else {
                a.data_view().update(i, None)
            }
            &&& b.counts() == (c.0, c.1, c.2, c.3, (c.4 - 1) as u16, c.5)
            &&& b.data_has_room()
        }
    })
    &&& b.blocks_view() == a.blocks_view()
    &&& b.occlusion_view() == a.occlusion_view()
    &&& b.update_refs_view() == a.update_refs_view()
    &&& b.block_light_bytes() == a.block_light_bytes()
    &&& b.sky_light_bytes() == a.sky_light_bytes()
    &&& b.dirty_flags() == a.dirty_flags()
}

/// What storing the data of a block does to a section and returns.
pub open spec fn set_data_post<T>(a: Section<T>, b: Section<T>, coord: Coord, tag: T, r: Option<T>) -> bool {
    &&& ({
        let i = spec_section_index(coord);
        let d = a.data_view()[i];
        let c = a.counts();
        &&& r == d
        &&& b.data_view() == a.data_view().update(i, Some(tag))
        &&& b.counts() == (
            c.0,
            c.1,
            c.2,
            c.3,
            (if d is None {
                c.4 + 1
            } else {
                c.4 as int
            }) as u16,
            c.5,
        )
    })
    &&& b.blocks_view() == a.blocks_view()
    &&& b.occlusion_view() == a.occlusion_view()
    &&& b.update_refs_view() == a.update_refs_view()
    &&& b.block_light_bytes() == a.block_light_bytes()
    &&& b.sky_light_bytes() == a.sky_light_bytes()
    &&& b.dirty_flags() == a.dirty_flags()
}

/// Blocks and their per-block data. `T` is the type of the block data.
pub struct Section<T> {
    blocks: Option<Vec<Id>>,
    occlusion: Option<Vec<Occlusion>>,
    block_light: Option<Vec<u8>>,
    sky_light: Option<Vec<u8>>,
    block_data_refs: Option<Vec<BlockDataRef>>,
    update_refs: Option<Vec<UpdateRef>>,
    block_data: BlockDataContainer<T>,
    block_count: u16,
    occlusion_count: u16,
    block_light_count: u16,
    sky_light_count: u16,
    block_data_count: u16,
    update_ref_count: u16,
    blocks_dirty: Dirty,
    light_dirty: Dirty,
    section_dirty: Dirty,
}

impl<T> Section<T> {
    /// The state of each block (air where none is stored).
    pub closed spec fn blocks_view(&self) -> Seq<Id> {
        match self.blocks {
            Some(v) => v@,
            None => Seq::new(4096, |i: int| Id(0)),
        }
    }

    /// The hidden faces of each block (none where none are stored).
    pub closed spec fn occlusion_view(&self) -> Seq<Occlusion> {
        match self.occlusion {
            Some(v) => v@,
            None => Seq::new(4096, |i: int| Occlusion(0)),
        }
    }

    /// The update handle of each block (null where none are stored).
    pub closed spec fn update_refs_view(&self) -> Seq<UpdateRef> {
        match self.update_refs {
            Some(v) => v@,
            None => Seq::new(4096, |i: int| UpdateRef(0)),
        }
    }

    /// The stored block light map, two levels per byte.
    pub closed spec fn block_light_bytes(&self) -> Option<Seq<u8>> {
        match self.block_light {
            Some(v) => Some(v@),
            None => None,
        }
    }

    /// The stored sky light map, two levels per byte.
    pub closed spec fn sky_light_bytes(&self) -> Option<Seq<u8>> {
        match self.sky_light {
            Some(v) => Some(v@),
            None => None,
        }
    }

    /// The data handle of each block (null where none are stored).
    pub closed spec fn data_refs_view(&self) -> Seq<BlockDataRef> {
        match self.block_data_refs {
            Some(v) => v@,
            None => Seq::new(4096, |i: int| BlockDataRef(0)),
        }
    }

    /// The data of each block.
    pub closed spec fn data_view(&self) -> Seq<Option<T>> {
        Seq::new(
            4096,
            |i: int|
                {
                    let r = self.data_refs_view()[i];
                    if r.0 == 0 {
                        None
                    } else {
                        Some(self.block_data@[r.0])
                    }
                },
        )
    }

    /// The data storage has a free slot for one more value.
    pub closed spec fn data_has_room(&self) -> bool {
        self.block_data.has_room()
    }

    /// The block light level of block `i`: 0 where no map is stored.
    pub open spec fn block_light_at(&self, i: int) -> u8 {
        match self.block_light_bytes() {
            Some(b) => nibble(b, i),
            None => 0,
        }
    }

    /// The sky light level of block `i`: 15 where no map is stored.
    pub open spec fn sky_light_at(&self, i: int) -> u8 {
        match self.sky_light_bytes() {
            Some(b) => nibble(b, i),
            None => 15,
        }
    }

    /// The block light level of each block.
    pub open spec fn block_light_levels(&self) -> Seq<u8> {
        light_levels(self.block_light_bytes(), 0)
    }

    /// The sky light level of each block.
    pub open spec fn sky_light_levels(&self) -> Seq<u8> {
        light_levels(self.sky_light_bytes(), 15)
    }

    /// The counters of non-air blocks, occluded blocks, blocks with block
    /// light, blocks with less than full sky light, blocks with data and
    /// blocks with an update handle.
    pub closed spec fn counts(&self) -> (u16, u16, u16, u16, u16, u16) {
        (
            self.block_count,
            self.occlusion_count,
            self.block_light_count,
            self.sky_light_count,
            self.block_data_count,
            self.update_ref_count,
        )
    }

    /// The three dirty flags: blocks, light, section.
    pub closed spec fn dirty_flags(&self) -> (bool, bool, bool) {
        (self.blocks_dirty.is_dirty(), self.light_dirty.is_dirty(), self.section_dirty.is_dirty())
    }

    /// The stored parts have their sizes, the counters of blocks and of
    /// occluded blocks count what they name, the counter of update handles
    /// is at most the number of non-null handles, and those parts are stored
    /// exactly while their counter is not zero.
    pub closed spec fn wf(&self) -> bool {
        &&& self.blocks matches Some(v) ==> v@.len() == 4096
        &&& self.occlusion matches Some(v) ==> v@.len() == 4096
        &&& self.update_refs matches Some(v) ==> v@.len() == 4096
        &&& self.block_light matches Some(v) ==> v@.len() == 2048
        &&& self.sky_light matches Some(v) ==> v@.len() == 2048
        &&& self.block_count == count_where(self.blocks_view(), non_air())
        &&& self.blocks is Some <==> self.block_count > 0
        &&& self.occlusion_count == count_where(self.occlusion_view(), occluded())
        &&& self.occlusion is Some <==> self.occlusion_count > 0
        &&& self.update_ref_count <= count_where(self.update_refs_view(), update_enabled())
        &&& self.block_light_count <= count_where(self.block_light_levels(), lit())
        &&& self.sky_light_count <= count_where(self.sky_light_levels(), shaded())
        &&& self.update_refs is Some <==> self.update_ref_count > 0
        &&& self.block_data.wf()
        &&& self.block_data_refs matches Some(v) ==> v@.len() == 4096
        &&& forall|i: int|
            0 <= i < 4096 && (#[trigger] self.data_refs_view()[i]).0 != 0 ==> self.block_data@.contains_key(
                self.data_refs_view()[i].0,
            )
        &&& forall|i: int, j: int|
            0 <= i < j < 4096 && (#[trigger] self.data_refs_view()[i]).0 != 0 ==> self.data_refs_view()[i]
                != #[trigger] self.data_refs_view()[j]
        &&& self.block_data_count <= count_where(self.data_refs_view(), data_present())
    }

    /// All air, nothing hidden, no light stored, no handles, no data, all
    /// counters 0, nothing dirty.
    pub open spec fn is_blank(&self) -> bool {
        &&& self.blocks_view() == Seq::new(4096, |i: int| Id(0))
        &&& self.occlusion_view() == Seq::new(4096, |i: int| Occlusion(0))
        &&& self.update_refs_view() == Seq::new(4096, |i: int| UpdateRef(0))
        &&& self.block_light_bytes() is None
        &&& self.sky_light_bytes() is None
        &&& self.counts() == (0u16, 0u16, 0u16, 0u16, 0u16, 0u16)
        &&& self.dirty_flags() == (false, false, false)
        &&& self.data_view() == Seq::new(4096, |i: int| None::<T>)
        &&& self.data_has_room()
    }

    /// An empty section: all air, nothing hidden, no light stored, no data.
    pub fn new() -> (r: Self)
        ensures
            r.wf(),
            r.is_blank(),
    {
        let r = Self {
            blocks: None,
            occlusion: None,
            block_light: None,
            sky_light: None,
            block_data_refs: None,
            update_refs: None,
            block_data: BlockDataContainer::new(),
            block_count: 0,
            occlusion_count: 0,
            block_light_count: 0,
            sky_light_count: 0,
            block_data_count: 0,
            update_ref_count: 0,
            blocks_dirty: Dirty::new(),
            light_dirty: Dirty::new(),
            section_dirty: Dirty::new(),
        };
        proof {
            lemma_count_bounds(r.blocks_view(), non_air());
            lemma_count_bounds(r.occlusion_view(), occluded());
            lemma_count_bounds(r.update_refs_view(), update_enabled());
            assert(r.data_view() =~= Seq::new(4096, |i: int| None::<T>));
            assert(r.blocks_view() =~= Seq::new(4096, |i: int| Id(0)));
            assert(r.occlusion_view() =~= Seq::new(4096, |i: int| Occlusion(0)));
            assert(r.update_refs_view() =~= Seq::new(4096, |i: int| UpdateRef(0)));
        }
        r
    }

    /// The index of the block at `coord` in the section.
    pub fn index(coord: Coord) -> (r: usize)
        ensures
            r == spec_section_index(coord),
            r < 4096,
    {
        let (cx, cy, cz) = (coord.x, coord.y, coord.z);
        let x = cx & 0xF;
        let y = cy & 0xF;
        let z = cz & 0xF;
        let v = x | (z << 4) | (y << 8);
        assert(0 <= v < 4096 && v == x + 16 * z + 256 * y) by (bit_vector)
            requires
                x == cx & 15i32,
                y == cy & 15i32,
                z == cz & 15i32,
                v == x | (z << 4i32) | (y << 8i32),
        ;
        v as usize
    }

    /// The coordinate in the section of block `index`.
    pub fn coord(index: u16) -> (r: Coord)
        ensures
            r == (Coord { x: (index % 16) as i32, y: ((index / 256) % 16) as i32, z: ((index / 16) % 16) as i32 }),
    {
        let x = index & 0xf;
        let y = (index >> 8) & 0xf;
        let z = (index >> 4) & 0xf;
        assert(x == index % 16 && y == (index / 256) % 16 && z == (index / 16) % 16) by (bit_vector)
            requires
                x == index & 15u16,
                y == (index >> 8u16) & 15u16,
                z == (index >> 4u16) & 15u16,
        ;
        Coord::new(x as i32, y as i32, z as i32)
    }

    /// The state of the block at `coord` (each component wraps into
    /// `0 .. 16`).
    pub fn get_block(&self, coord: Coord) -> (r: Id)
        requires
            self.wf(),
        ensures
            r == self.blocks_view()[spec_section_index(coord)],
    {
        let index = Self::index(coord);
        match &self.blocks {
            Some(blocks) => blocks[index],
            None => Id(0),
        }
    }

    /// Sets the state of a block. When it changes, the blocks and the
    /// section are marked dirty, the counter of non-air blocks follows, and
    /// the block storage is dropped once only air is left. The result holds
    /// the old state, if it changed, and whether the section was marked
    /// dirty by this call.
    pub fn set_block(&mut self, coord: Coord, state: Id) -> (r: SectionUpdate<StateChange>)
        requires
            old(self).wf(),
        ensures
            final(self).wf(),
            set_block_post(*old(self), *final(self), coord, state, r),
    {
        let index = Self::index(coord);
        let ghost i = index as int;
        let ghost v0 = self.blocks_view();
        proof {
            lemma_count_bounds(v0, non_air());
        }
        let mut blocks = match self.blocks.take() {
            Some(blocks) => blocks,
            None => {
                if state.is_air() {
                    return SectionUpdate::new(StateChange::Unchanged);
                }
                let empty = filled_ids(4096);
                proof {
                    assert(empty@ =~= v0);
                }
                empty
            },
        };
        let old_state = blocks[index];
        if old_state == state {
            self.blocks = Some(blocks);
            return SectionUpdate::new(StateChange::Unchanged);
        }
        blocks.set(index, state);
        proof {
            lemma_count_update(v0, i, state, non_air());
            lemma_count_bounds(blocks@, non_air());
        }
        if old_state.is_air() && !state.is_air() {
            self.block_count = self.block_count + 1;
            self.blocks = Some(blocks);
        } else if state.is_air() && !old_state.is_air() {
            self.block_count = self.block_count - 1;
            if self.block_count == 0 {
                proof {
                    assert(blocks@ =~= Seq::new(4096, |k: int| Id(0))) by {
                        assert forall|k: int| 0 <= k < 4096 implies blocks@[k] == Id(0) by {
                            assert(!non_air()(blocks@[k]));
                        }
                    }
                }
                self.blocks = None;
            } else {
                self.blocks = Some(blocks);
            }
        } else {
            self.blocks = Some(blocks);
        }
        self.blocks_dirty.mark();
        if self.section_dirty.mark() {
            SectionUpdate::new_dirty(StateChange::Changed(old_state))
        } else {
            SectionUpdate::new(StateChange::Changed(old_state))
        }
    }

    /// What query `Q` reads of the block at `coord`.
    pub fn query<'a, Q: Query<'a, T>>(&'a self, coord: Coord) -> (r: Q::Output)
        requires
            self.wf(),
        ensures
            r == Q::spec_read(self, spec_section_index(coord)),
    {
        Q::read(self, Self::index(coord))
    }

    /// The hidden faces of the block at `coord`.
    pub fn occlusion(&self, coord: Coord) -> (r: Occlusion)
        requires
            self.wf(),
        ensures
            r == self.occlusion_view()[spec_section_index(coord)],
    {
        let index = Self::index(coord);
        match &self.occlusion {
            Some(occlusion) => occlusion[index],
            None => Occlusion(0),
        }
    }

    /// The face of the block at `coord` is not hidden.
    pub fn face_visible(&self, coord: Coord, face: Direction) -> (r: bool)
        requires
            self.wf(),
        ensures
            r == !self.occlusion_view()[spec_section_index(coord)].is_hidden(face),
    {
        let index = Self::index(coord);
        match &self.occlusion {
            Some(occlusion) => occlusion[index].visible(face),
            None => {
                proof {
                    crate::bits::lemma_zero_bits(crate::direction::direction_index(face) as u64);
                }
                true
            },
        }
    }

    /// Shows a face of the block at `coord`; the result holds whether it
    /// was hidden (`true` when nothing is stored). When the face was not
    /// hidden, the blocks and the section are marked dirty. The occlusion
    /// storage is dropped once no face is hidden.
    pub fn show_face(&mut self, coord: Coord, face: Direction) -> (r: SectionUpdate<bool>)
        requires
            old(self).wf(),
        ensures
            final(self).wf(),
            show_face_post(*old(self), *final(self), coord, face, r),
    {
        let index = Self::index(coord);
        let ghost i = index as int;
        let ghost v0 = self.occlusion_view();
        let mut occlusion = match self.occlusion.take() {
            Some(occlusion) => occlusion,
            None => {
                return SectionUpdate::new(true);
            },
        };
        let old_flags = occlusion[index];
        let mut flags = old_flags;
        let was_hidden = flags.show(face);
        occlusion.set(index, flags);
        proof {
            lemma_count_update(v0, i, flags, occluded());
            lemma_count_bounds(occlusion@, occluded());
            lemma_count_bounds(v0, occluded());
            crate::bits::lemma_u8_zero_mask(old_flags.0, !(1u8 << crate::direction::direction_index(face)));
        }
        if flags.0 == 0 && old_flags.0 != 0 {
            self.occlusion_count = self.occlusion_count - 1;
            if self.occlusion_count == 0 {
                proof {
                    assert(occlusion@ =~= Seq::new(4096, |k: int| Occlusion(0))) by {
                        assert forall|k: int| 0 <= k < 4096 implies occlusion@[k] == Occlusion(0) by {
                            assert(!occluded()(occlusion@[k]));
                        }
                    }
                }
                self.occlusion = None;
            } else {
                self.occlusion = Some(occlusion);
            }
        } else {
            self.occlusion = Some(occlusion);
        }
        if !was_hidden {
            self.blocks_dirty.mark();
            if self.section_dirty.mark() {
                return SectionUpdate::new_dirty(was_hidden);
            }
        }
        SectionUpdate::new(was_hidden)
    }

    /// Hides a face of the block at `coord`; the result holds whether it
    /// was hidden. When it was, the blocks and the section are marked
    /// dirty.
    pub fn hide_face(&mut self, coord: Coord, face: Direction) -> (r: SectionUpdate<bool>)
        requires
            old(self).wf(),
        ensures
            final(self).wf(),
            hide_face_post(*old(self), *final(self), coord, face, r),
    {
        let index = Self::index(coord);
        let ghost i = index as int;
        let ghost v0 = self.occlusion_view();
        let mut occlusion = match self.occlusion.take() {
            Some(occlusion) => occlusion,
            None => {
                let empty = filled_occlusion(4096);
                proof {
                    assert(empty@ =~= v0);
                }
                empty
            },
        };
        let old_flags = occlusion[index];
        let mut flags = old_flags;
        let was_hidden = flags.conceal(face);
        occlusion.set(index, flags);
        proof {
            lemma_count_update(v0, i, flags, occluded());
            lemma_count_bounds(occlusion@, occluded());
            lemma_count_bounds(v0, occluded());
            let b = 1u8 << crate::direction::direction_index(face);
            crate::direction::lemma_direction_index_injective(face, face);
            crate::bits::lemma_u8_shifts();
            crate::bits::lemma_u8_zero_mask(flags.0, b);
            assert(flags.0 != 0);
        }
        if old_flags.0 == 0 {
            self.occlusion_count = self.occlusion_count + 1;
        }
        self.occlusion = Some(occlusion);
        if was_hidden {
            self.blocks_dirty.mark();
            if self.section_dirty.mark() {
                return SectionUpdate::new_dirty(was_hidden);
            }
        }
        SectionUpdate::new(was_hidden)
    }

    /// The update handle of the block at `coord` (null when none is stored).
    pub fn get_update_ref(&self, coord: Coord) -> (r: UpdateRef)
        requires
            self.wf(),
        ensures
            r == self.update_refs_view()[spec_section_index(coord)],
    {
        let index = Self::index(coord);
        match &self.update_refs {
            Some(refs) => refs[index],
            None => UpdateRef(0),
        }
    }

    /// Sets the update handle of the block at `coord` and returns the old
    /// one. When it changes, the counter goes up if the old handle was null
    /// and down otherwise; the handles are dropped when it reaches zero.
    pub fn set_update_ref(&mut self, coord: Coord, value: UpdateRef) -> (r: UpdateRef)
        requires
            old(self).wf(),
        ensures
            final(self).wf(),
            set_update_ref_post(*old(self), *final(self), coord, value, r),
    {
        let index = Self::index(coord);
        let ghost i = index as int;
        let ghost v0 = self.update_refs_view();
        proof {
            lemma_count_bounds(v0, update_enabled());
        }
        let mut refs = match self.update_refs.take() {
            Some(refs) => refs,
            None => {
                if value.null() {
                    return UpdateRef(0);
                }
                let empty = filled_refs(4096);
                proof {
                    assert(empty@ =~= v0);
                }
                empty
            },
        };
        let previous = refs[index];
        refs.set(index, value);
        proof {
            lemma_count_update(v0, i, value, update_enabled());
            lemma_count_bounds(refs@, update_enabled());
        }
        if previous != value {
            if previous.null() {
                self.update_ref_count = self.update_ref_count + 1;
                self.update_refs = Some(refs);
            } else {
                self.update_ref_count = self.update_ref_count - 1;
                if self.update_ref_count == 0 {
                    self.update_refs = None;
                    proof {
                        lemma_count_bounds(self.update_refs_view(), update_enabled());
                    }
                } else {
                    self.update_refs = Some(refs);
                }
            }
        } else {
            self.update_refs = Some(refs);
        }
        previous
    }

    /// The block light of the block at `coord`: the light that comes from
    /// other blocks.
    pub fn get_block_light(&self, coord: Coord) -> (r: u8)
        requires
            self.wf(),
        ensures
            r == self.block_light_at(spec_section_index(coord)),
    {
        let index = Self::index(coord);
        match &self.block_light {
            Some(light) => read_nibble(light, index),
            None => 0,
        }
    }

    /// The sky light of the block at `coord`.
    pub fn get_sky_light(&self, coord: Coord) -> (r: u8)
        requires
            self.wf(),
        ensures
            r == self.sky_light_at(spec_section_index(coord)),
    {
        let index = Self::index(coord);
        match &self.sky_light {
            Some(light) => read_nibble(light, index),
            None => 15,
        }
    }

    /// Sets the block light of the block at `coord` to `level` (at most
    /// 15). The first level stored makes a map whose bytes are all 15.
    /// The counter of lit blocks follows the changes from and to 0, and
    /// the map is dropped when it reaches 0. The result holds the level and
    /// the greater of the level and the sky light (0 where no sky light is
    /// stored) before and after; when that greater value changes, the light
    /// and the section are marked dirty.
    pub fn set_block_light(&mut self, coord: Coord, level: u8) -> (r: SectionUpdate<LightChange>)
        requires
            old(self).wf(),
            set_block_light_pre(*old(self), coord, level),
        ensures
            final(self).wf(),
            set_block_light_post(*old(self), *final(self), coord, level, r),
    {
        let lvl = if level < 15 { level } else { 15 };
        let index = Self::index(coord);
        let ghost i = index as int;
        let other = match &self.sky_light {
            Some(s) => read_nibble(s, index),
            None => 0,
        };
        proof {
            lemma_count_bounds(self.block_light_levels(), lit());
        }
        let mut map = match self.block_light.take() {
            Some(m) => m,
            None => {
                if lvl == 0 {
                    return SectionUpdate::new(
                        LightChange { old_max: other, old_level: 0, new_level: 0, new_max: other },
                    );
                }
                filled_light(2048)
            },
        };
        let ghost base = map@;
        let old_level = read_nibble(&map, index);
        let old_max = if other >= old_level { other } else { old_level };
        let new_max = if other >= lvl { other } else { lvl };
        let change = LightChange { old_max, old_level, new_level: lvl, new_max };
        if lvl == old_level {
            self.block_light = Some(map);
            return SectionUpdate::new(change);
        }
        write_nibble(&mut map, index, lvl);
        proof {
            lemma_levels_update(base, i, lvl, 0);
            lemma_count_update(light_levels(Some(base), 0), i, lvl, lit());
            lemma_count_bounds(light_levels(Some(base), 0), lit());
        }
        if lvl != 0 && old_level == 0 {
            self.block_light_count = self.block_light_count + 1;
            self.block_light = Some(map);
        } else if lvl == 0 && old_level != 0 {
            self.block_light_count = self.block_light_count - 1;
            if self.block_light_count == 0 {
                self.block_light = None;
            } else {
                self.block_light = Some(map);
            }
        } else {
            self.block_light = Some(map);
        }
        if new_max != old_max {
            self.light_dirty.mark();
            if self.section_dirty.mark() {
                return SectionUpdate::new_dirty(change);
            }
        }
        SectionUpdate::new(change)
    }

    /// Sets the sky light of the block at `coord` to `level` (at most 15).
    /// The first level below 15 stored makes a map whose bytes are all 15.
    /// The counter of shaded blocks follows the changes from and to 15, and
    /// the map is dropped when it reaches 0. The result holds the level and
    /// the greater of the level and the block light (15 where no block
    /// light is stored) before and after; when that greater value changes,
    /// the light and the section are marked dirty.
    pub fn set_sky_light(&mut self, coord: Coord, level: u8) -> (r: SectionUpdate<LightChange>)
        requires
            old(self).wf(),
            set_sky_light_pre(*old(self), coord, level),
        ensures
            final(self).wf(),
            set_sky_light_post(*old(self), *final(self), coord, level, r),
    {
        let lvl = if level < 15 { level } else { 15 };
        let index = Self::index(coord);
        let ghost i = index as int;
        let other = match &self.block_light {
            Some(s) => read_nibble(s, index),
            None => 15,
        };
        proof {
            lemma_count_bounds(self.sky_light_levels(), shaded());
        }
        let mut map = match self.sky_light.take() {
            Some(m) => m,
            None => {
                if lvl == 15 {
                    return SectionUpdate::new(
                        LightChange { old_max: other, old_level: 15, new_level: 15, new_max: other },
                    );
                }
                filled_light(2048)
            },
        };
        let ghost base = map@;
        let old_level = read_nibble(&map, index);
        let old_max = if other >= old_level { other } else { old_level };
        let new_max = if other >= lvl { other } else { lvl };
        let change = LightChange { old_max, old_level, new_level: lvl, new_max };
        if lvl == old_level {
            self.sky_light = Some(map);
            return SectionUpdate::new(change);
        }
        write_nibble(&mut map, index, lvl);
        proof {
            lemma_levels_update(base, i, lvl, 15);
            lemma_count_update(light_levels(Some(base), 15), i, lvl, shaded());
            lemma_count_bounds(light_levels(Some(base), 15), shaded());
        }
        if lvl != 15 && old_level == 15 {
            self.sky_light_count = self.sky_light_count + 1;
            self.sky_light = Some(map);
        } else if lvl == 15 && old_level != 15 {
            self.sky_light_count = self.sky_light_count - 1;
            if self.sky_light_count == 0 {
                self.sky_light = None;
            } else {
                self.sky_light = Some(map);
            }
        } else {
            self.sky_light = Some(map);
        }
        if new_max != old_max {
            self.light_dirty.mark();
            if self.section_dirty.mark() {
                return SectionUpdate::new_dirty(change);
            }
        }
        SectionUpdate::new(change)
    }

    /// The entry of block `i` in a copied light map: the greater of its
    /// block light and its sky light, each 0 where no map is stored.
    pub open spec fn lightmap_entry(&self, i: int) -> u8 {
        let b = match self.block_light_bytes() {
            Some(m) => nibble(m, i),
            None => 0u8,
        };
        let s = match self.sky_light_bytes() {
            Some(m) => nibble(m, i),
            None => 0u8,
        };
        max_u8(b, s)
    }

    /// Writes the greater of block light and sky light of each of the 4096
    /// blocks into `dest`, in index order (y, then z, then x).
    pub fn copy_lightmap(&self, dest: &mut [u8])
        requires
            self.wf(),
            old(dest)@.len() >= 4096,
        ensures
            final(dest)@.len() == old(dest)@.len(),
            forall|j: int| 0 <= j < 4096 ==> #[trigger] final(dest)@[j] == self.lightmap_entry(j),
            forall|j: int| 4096 <= j < old(dest)@.len() ==> #[trigger] final(dest)@[j] == old(dest)@[j],
    {
        let mut i: usize = 0;
        while i < 4096
            invariant
                self.wf(),
                i <= 4096,
                dest@.len() == old(dest)@.len(),
                old(dest)@.len() >= 4096,
                forall|j: int| 0 <= j < i ==> #[trigger] dest@[j] == self.lightmap_entry(j),
                forall|j: int| 4096 <= j < old(dest)@.len() ==> #[trigger] dest@[j] == old(dest)@[j],
            decreases 4096 - i,
        {
            let block_light = match &self.block_light {
                Some(m) => read_nibble(m, i),
                None => 0,
            };
            let sky_light = match &self.sky_light {
                Some(m) => read_nibble(m, i),
                None => 0,
            };
            let light = if block_light >= sky_light { block_light } else { sky_light };
            dest[i] = light;
            i = i + 1;
        }
    }

    /// The data of the block at `coord`, if it has any.
    pub fn get_data(&self, coord: Coord) -> (r: Option<&T>)
        requires
            self.wf(),
        ensures
            r is Some == self.data_view()[spec_section_index(coord)] is Some,
            r matches Some(v) ==> *v == self.data_view()[spec_section_index(coord)].unwrap(),
    {
        let index = Self::index(coord);
        match &self.block_data_refs {
            Some(refs) => self.block_data.get(refs[index]),
            None => None,
        }
    }

    /// The data of the block at `coord`, if it has any, to change in place.
    pub fn get_data_mut(&mut self, coord: Coord) -> (r: Option<&mut T>)
        requires
            old(self).wf(),
        ensures
            final(self).wf(),
            ({
                let i = spec_section_index(coord);
                let d = old(self).data_view()[i];
                &&& d is None ==> r is None && *final(self) == *old(self)
                &&& d is Some ==> (r matches Some(v) && *v == d.unwrap() && final(self).data_view()
                    == old(self).data_view().update(i, Some(*final(v))))
            }),
            final(self).blocks_view() == old(self).blocks_view(),
            final(self).occlusion_view() == old(self).occlusion_view(),
            final(self).update_refs_view() == old(self).update_refs_view(),
            final(self).block_light_bytes() == old(self).block_light_bytes(),
            final(self).sky_light_bytes() == old(self).sky_light_bytes(),
            final(self).counts() == old(self).counts(),
            final(self).dirty_flags() == old(self).dirty_flags(),
            final(self).data_has_room() == old(self).data_has_room(),
    {
        let index = Self::index(coord);
        let dref = match &self.block_data_refs {
            Some(refs) => refs[index],
            None => BlockDataRef(0),
        };
        self.block_data.get_mut(dref)
    }

    /// The data of the block at `coord`; where it has none, `default` is
    /// stored first. The counter of blocks with data is left as it is.
    pub fn get_or_insert_data(&mut self, coord: Coord, default: T) -> (r: &mut T)
        requires
            old(self).wf(),
            data_room_pre(*old(self), coord),
        ensures
            final(self).wf(),
            ({
                let i = spec_section_index(coord);
                let d = old(self).data_view()[i];
                &&& *r == if d is Some {
                    d.unwrap()
                } else {
                    default
                }
                &&& final(self).data_view() == old(self).data_view().update(i, Some(*final(r)))
            }),
            final(self).blocks_view() == old(self).blocks_view(),
            final(self).occlusion_view() == old(self).occlusion_view(),
            final(self).update_refs_view() == old(self).update_refs_view(),
            final(self).block_light_bytes() == old(self).block_light_bytes(),
            final(self).sky_light_bytes() == old(self).sky_light_bytes(),
            final(self).counts() == old(self).counts(),
            final(self).dirty_flags() == old(self).dirty_flags(),
    {
        let index = Self::index(coord);
        let ghost i = index as int;
        let ghost d0 = self.data_view();
        let ghost refs0 = self.data_refs_view();
        let mut refs = match self.block_data_refs.take() {
            Some(refs) => refs,
            None => filled_data_refs(4096),
        };
        proof {
            assert(refs@ =~= refs0);
        }
        let dref = refs[index];
        if dref.null() {
            let ghost v0 = self.block_data@;
            let newref = self.block_data.insert(default);
            refs.set(index, newref);
            self.block_data_refs = Some(refs);
            proof {
                lemma_count_update(refs0, i, newref, data_present());
                assert forall|j: int| 0 <= j < 4096 && j != i && (#[trigger] refs0[j]).0 != 0 implies refs0[j]
                    != newref by {}
                assert(self.data_view() =~= d0.update(i, Some(default)));
            }
            self.block_data.get_mut(newref).unwrap()
        } else {
            self.block_data_refs = Some(refs);
            self.block_data.get_mut(dref).unwrap()
        }
    }

    /// The data of the block at `coord`; where it has none, what `f`
    /// returns is stored first. The counter of blocks with data is left as
    /// it is.
    pub fn get_or_insert_data_with<F: FnOnce() -> T>(&mut self, coord: Coord, f: F) -> (r: &mut T)
        requires
            old(self).wf(),
            data_room_pre(*old(self), coord),
            old(self).data_view()[spec_section_index(coord)] is None ==> f.requires(()),
        ensures
            final(self).wf(),
            ({
                let i = spec_section_index(coord);
                let d = old(self).data_view()[i];
                &&& d is Some ==> *r == d.unwrap()
                &&& d is None ==> f.ensures((), *r)
                &&& final(self).data_view() == old(self).data_view().update(i, Some(*final(r)))
            }),
            final(self).blocks_view() == old(self).blocks_view(),
            final(self).occlusion_view() == old(self).occlusion_view(),
            final(self).update_refs_view() == old(self).update_refs_view(),
            final(self).block_light_bytes() == old(self).block_light_bytes(),
            final(self).sky_light_bytes() == old(self).sky_light_bytes(),
            final(self).counts() == old(self).counts(),
            final(self).dirty_flags() == old(self).dirty_flags(),
    {
        let index = Self::index(coord);
        let ghost i = index as int;
        let ghost d0 = self.data_view();
        let ghost refs0 = self.data_refs_view();
        let mut refs = match self.block_data_refs.take() {
            Some(refs) => refs,
            None => filled_data_refs(4096),
        };
        proof {
            assert(refs@ =~= refs0);
        }
        let dref = refs[index];
        if dref.null() {
            let value = f();
            let newref = self.block_data.insert(value);
            refs.set(index, newref);
            self.block_data_refs = Some(refs);
            proof {
                lemma_count_update(refs0, i, newref, data_present());
                assert forall|j: int| 0 <= j < 4096 && j != i && (#[trigger] refs0[j]).0 != 0 implies refs0[j]
                    != newref by {}
                assert(self.data_view() =~= d0.update(i, Some(value)));
            }
            self.block_data.get_mut(newref).unwrap()
        } else {
            self.block_data_refs = Some(refs);
            self.block_data.get_mut(dref).unwrap()
        }
    }

    /// Removes the data of the block at `coord` and returns it. The counter
    /// of blocks with data goes down by one, and at 0 the handles of every
    /// block are dropped.
    pub fn delete_data(&mut self, coord: Coord) -> (r: Option<T>)
        requires
            old(self).wf(),
            delete_data_pre(*old(self), coord),
        ensures
            final(self).wf(),
            delete_data_post(*old(self), *final(self), coord, r),
    {
        let index = Self::index(coord);
        let ghost i = index as int;
        let ghost d0 = self.data_view();
        let ghost refs0 = self.data_refs_view();
        let ghost v0 = self.block_data@;
        let mut refs = match self.block_data_refs.take() {
            Some(refs) => refs,
            None => {
                return None;
            },
        };
        let old_ref = refs[index];
        if old_ref.null() {
            self.block_data_refs = Some(refs);
            return None;
        }
        refs.set(index, BlockDataRef(0));
        proof {
            lemma_count_update(refs0, i, BlockDataRef(0), data_present());
            lemma_count_bounds(refs0, data_present());
        }
        self.block_data_count = self.block_data_count - 1;
        if self.block_data_count == 0 {
            proof {
                assert(self.data_view() =~= Seq::new(4096, |k: int| None::<T>));
            }
        } else {
            self.block_data_refs = Some(refs);
        }
        let r = self.block_data.delete(old_ref);
        proof {
            assert forall|j: int| 0 <= j < 4096 && j != i && (#[trigger] refs0[j]).0 != 0 implies refs0[j]
                != old_ref by {
                if j < i {
                    assert(refs0[j] != refs0[i]);
                } else {
                    assert(refs0[i] != refs0[j]);
                }
            }
            if self.block_data_count != 0 {
                assert(self.data_view() =~= d0.update(i, None));
            } else {
                assert(self.data_view() =~= Seq::new(4096, |k: int| None::<T>));
            }
        }
        r
    }

    /// Stores `tag` as the data of the block at `coord` and returns the data
    /// it had. The counter of blocks with data goes up by one where the
    /// block had none.
    pub fn set_data(&mut self, coord: Coord, tag: T) -> (r: Option<T>)
        requires
            old(self).wf(),
            data_room_pre(*old(self), coord),
        ensures
            final(self).wf(),
            set_data_post(*old(self), *final(self), coord, tag, r),
    {
        let index = Self::index(coord);
        let ghost i = index as int;
        let ghost d0 = self.data_view();
        let ghost refs0 = self.data_refs_view();
        let mut refs = match self.block_data_refs.take() {
            Some(refs) => refs,
            None => filled_data_refs(4096),
        };
        proof {
            assert(refs@ =~= refs0);
            lemma_count_bounds(refs0, data_present());
        }
        let old_ref = refs[index];
        let previous = if old_ref.null() {
            proof {
                lemma_count_update(refs0, i, BlockDataRef(1), data_present());
                lemma_count_bounds(refs0.update(i, BlockDataRef(1)), data_present());
            }
            self.block_data_count = self.block_data_count + 1;
            None
        } else {
            self.block_data.delete(old_ref)
        };
        let new_ref = self.block_data.insert(tag);
        refs.set(index, new_ref);
        self.block_data_refs = Some(refs);
        proof {
            lemma_count_update(refs0, i, new_ref, data_present());
            assert forall|j: int| 0 <= j < 4096 && j != i && (#[trigger] refs0[j]).0 != 0 implies refs0[j]
                != old_ref && refs0[j] != new_ref by {
                if j < i {
                    assert(refs0[j] != refs0[i]);
                } else {
                    assert(refs0[i] != refs0[j]);
                }
            }
            assert(self.data_view() =~= d0.update(i, Some(tag)));
        }
        previous
    }

    /// The greater of the block light and the sky light.
    pub fn get_light(&self, coord: Coord) -> (r: u8)
        requires
            self.wf(),
        ensures
            r == max_u8(self.block_light_at(spec_section_index(coord)), self.sky_light_at(spec_section_index(coord))),
    {
        let block_light = self.get_block_light(coord);
        let sky_light = self.get_sky_light(coord);
        if block_light >= sky_light { block_light } else { sky_light }
    }

    /// In a well-formed section every view has 4096 entries, a stored light
    /// map has 2048 bytes, the counters of non-air blocks and of blocks
    /// with a hidden face count exactly those, and the other counters are
    /// at most the number of blocks they name.
    pub proof fn lemma_wf_facts(&self)
        requires
            self.wf(),
        ensures
            self.blocks_view().len() == 4096,
            self.occlusion_view().len() == 4096,
            self.update_refs_view().len() == 4096,
            self.data_view().len() == 4096,
            self.block_light_bytes() matches Some(b) ==> b.len() == 2048,
            self.sky_light_bytes() matches Some(b) ==> b.len() == 2048,
            self.counts().0 == count_where(self.blocks_view(), non_air()),
            self.counts().1 == count_where(self.occlusion_view(), occluded()),
            self.counts().2 <= count_where(self.block_light_levels(), lit()),
            self.counts().3 <= count_where(self.sky_light_levels(), shaded()),
            self.counts().5 <= count_where(self.update_refs_view(), update_enabled()),
    {
    }

    /// No block is non-air, none has block light and none has less than
    /// full sky light, as far as the counters tell.
    pub fn is_empty(&self) -> (r: bool)
        ensures
            r == (self.counts().0 == 0 && self.counts().2 == 0 && self.counts().3 == 0),
    {
        self.block_count == 0 && self.block_light_count == 0 && self.sky_light_count == 0
    }
}

/// `n` occlusions with no face hidden.
fn filled_occlusion(n: usize) -> (r: Vec<Occlusion>)
    ensures
        r@ == Seq::new(n as nat, |i: int| Occlusion(0)),
{
    let mut r: Vec<Occlusion> = Vec::new();
    let mut i: usize = 0;
    while i < n
        invariant
            i <= n,
            r@ == Seq::new(i as nat, |k: int| Occlusion(0)),
        decreases n - i,
    {
        r.push(Occlusion(0));
        proof {
            assert(r@ =~= Seq::new((i + 1) as nat, |k: int| Occlusion(0)));
        }
        i = i + 1;
    }
    r
}

/// Level `index` of a map of two levels per byte.
fn read_nibble(light: &Vec<u8>, index: usize) -> (r: u8)
    requires
        index < 4096,
        light@.len() == 2048,
    ensures
        r == nibble(light@, index as int),
        r <= 15,
{
    let b = light[index / 2];
    proof {
        crate::bits::lemma_set_nibble(b, 0);
    }
    if index % 2 == 0 {
        b & 0xF
    } else {
        (b >> 4) & 0xF
    }
}

/// `n` bytes of two full levels each.
fn filled_light(n: usize) -> (r: Vec<u8>)
    ensures
        r@ == Seq::new(n as nat, |i: int| 15u8),
{
    let mut r: Vec<u8> = Vec::new();
    let mut i: usize = 0;
    while i < n
        invariant
            i <= n,
            r@ == Seq::new(i as nat, |k: int| 15u8),
        decreases n - i,
    {
        r.push(15);
        proof {
            assert(r@ =~= Seq::new((i + 1) as nat, |k: int| 15u8));
        }
        i = i + 1;
    }
    r
}

/// Stores level `l` of block `index` in a map of two levels per byte.
fn write_nibble(light: &mut Vec<u8>, index: usize, l: u8)
    requires
        index < 4096,
        old(light)@.len() == 2048,
        l <= 15,
    ensures
        final(light)@ == set_nibble_in(old(light)@, index as int, l),
{
    let b = light[index / 2];
    if index % 2 == 0 {
        light.set(index / 2, (b & 0xF0) | l);
    } else {
        light.set(index / 2, (b & 0x0F) | (l << 4));
    }
}

/// `n` null data handles.
fn filled_data_refs(n: usize) -> (r: Vec<BlockDataRef>)
    ensures
        r@ == Seq::new(n as nat, |i: int| BlockDataRef(0)),
{
    let mut r: Vec<BlockDataRef> = Vec::new();
    let mut i: usize = 0;
    while i < n
        invariant
            i <= n,
            r@ == Seq::new(i as nat, |k: int| BlockDataRef(0)),
        decreases n - i,
    {
        r.push(BlockDataRef(0));
        proof {
            assert(r@ =~= Seq::new((i + 1) as nat, |k: int| BlockDataRef(0)));
        }
        i = i + 1;
    }
    r
}

/// `n` null update handles.
fn filled_refs(n: usize) -> (r: Vec<UpdateRef>)
    ensures
        r@ == Seq::new(n as nat, |i: int| UpdateRef(0)),
{
    let mut r: Vec<UpdateRef> = Vec::new();
    let mut i: usize = 0;
    while i < n
        invariant
            i <= n,
            r@ == Seq::new(i as nat, |k: int| UpdateRef(0)),
        decreases n - i,
    {
        r.push(UpdateRef(0));
        proof {
            assert(r@ =~= Seq::new((i + 1) as nat, |k: int| UpdateRef(0)));
        }
        i = i + 1;
    }
    r
}

/// `n` air blocks.
fn filled_ids(n: usize) -> (r: Vec<Id>)
    ensures
        r@ == Seq::new(n as nat, |i: int| Id(0)),
{
    let mut r: Vec<Id> = Vec::new();
    let mut i: usize = 0;
    while i < n
        invariant
            i <= n,
            r@ == Seq::new(i as nat, |k: int| Id(0)),
        decreases n - i,
    {
        r.push(Id(0));
        proof {
            assert(r@ =~= Seq::new((i + 1) as nat, |k: int| Id(0)));
        }
        i = i + 1;
    }
    r
}

/// The index of a block in a section is below 4096.
pub proof fn lemma_index_bounds(c: Coord)
    ensures
        0 <= spec_section_index(c) < 4096,
{
    let (x, y, z) = (c.x, c.y, c.z);
    assert(0 <= x & 15i32 < 16 && 0 <= y & 15i32 < 16 && 0 <= z & 15i32 < 16) by (bit_vector);
}

/// Reading a block back gives the state that was set.
pub proof fn law_set_block_get<T>(a: Section<T>, b: Section<T>, coord: Coord, state: Id, r: SectionUpdate<StateChange>)
    requires
        a.wf(),
        set_block_post(a, b, coord, state, r),
    ensures
        b.blocks_view()[spec_section_index(coord)] == state,
{
    a.lemma_wf_facts();
    lemma_index_bounds(coord);
}

/// After a face is hidden it reads as hidden; after it is shown it reads as
/// visible.
pub proof fn law_face_get<T>(
    a: Section<T>,
    hidden: Section<T>,
    shown: Section<T>,
    coord: Coord,
    face: Direction,
    r1: SectionUpdate<bool>,
    r2: SectionUpdate<bool>,
)
    requires
        a.wf(),
        hide_face_post(a, hidden, coord, face, r1),
        show_face_post(a, shown, coord, face, r2),
    ensures
        hidden.occlusion_view()[spec_section_index(coord)].is_hidden(face),
        !shown.occlusion_view()[spec_section_index(coord)].is_hidden(face),
{
    a.lemma_wf_facts();
    let i = spec_section_index(coord);
    let o = a.occlusion_view()[i];
    let b = 1u8 << crate::direction::direction_index(face);
    let ov: u8 = o.0;
    lemma_index_bounds(coord);
    crate::direction::lemma_direction_index_injective(face, face);
    crate::bits::lemma_u8_shifts();
    assert((ov | b) & b == b && (ov & !b) & b == 0u8) by (bit_vector);
    if a.counts().1 == 0 {
        lemma_count_bounds(a.occlusion_view(), occluded());
        assert(!occluded()(a.occlusion_view()[i]));
        crate::bits::lemma_u8_zero_mask(ov, b);
    }
}

/// Reading a block light level back gives the level that was set (at
/// most 15).
pub proof fn law_set_block_light_get<T>(a: Section<T>, b: Section<T>, coord: Coord, level: u8, r: SectionUpdate<LightChange>)
    requires
        a.wf(),
        set_block_light_post(a, b, coord, level, r),
    ensures
        b.block_light_at(spec_section_index(coord)) == clamp15(level),
{
    a.lemma_wf_facts();
    lemma_index_bounds(coord);
    let i = spec_section_index(coord);
    let base = stored_or_fresh(a.block_light_bytes());
    assert(base.len() == 2048);
    lemma_levels_update(base, i, clamp15(level), 0);
    assert(light_levels(Some(set_nibble_in(base, i, clamp15(level))), 0)[i] == clamp15(level));
}

/// Reading a sky light level back gives the level that was set (at most
/// 15).
pub proof fn law_set_sky_light_get<T>(a: Section<T>, b: Section<T>, coord: Coord, level: u8, r: SectionUpdate<LightChange>)
    requires
        a.wf(),
        set_sky_light_post(a, b, coord, level, r),
    ensures
        b.sky_light_at(spec_section_index(coord)) == clamp15(level),
{
    a.lemma_wf_facts();
    lemma_index_bounds(coord);
    let i = spec_section_index(coord);
    let base = stored_or_fresh(a.sky_light_bytes());
    assert(base.len() == 2048);
    lemma_levels_update(base, i, clamp15(level), 15);
    assert(light_levels(Some(set_nibble_in(base, i, clamp15(level))), 15)[i] == clamp15(level));
}

/// Reading data back gives what was stored; after a delete there is none.
pub proof fn law_data_get<T>(
    a: Section<T>,
    set: Section<T>,
    deleted: Section<T>,
    coord: Coord,
    tag: T,
    r1: Option<T>,
    r2: Option<T>,
)
    requires
        a.wf(),
        set_data_post(a, set, coord, tag, r1),
        delete_data_post(a, deleted, coord, r2),
    ensures
        set.data_view()[spec_section_index(coord)] == Some(tag),
        deleted.data_view()[spec_section_index(coord)] is None,
        r1 == r2,
{
    a.lemma_wf_facts();
    lemma_index_bounds(coord);
}

/// Reading an update handle back gives the handle that was set, except
/// when a handle replaces another non-null one while the counter is 1:
/// then every handle of the section is dropped.
pub proof fn law_set_update_ref_get<T>(a: Section<T>, b: Section<T>, coord: Coord, value: UpdateRef, r: UpdateRef)
    requires
        a.wf(),
        set_update_ref_post(a, b, coord, value, r),
        !(r.0 != 0 && value.0 != 0 && r != value && a.counts().5 == 1),
    ensures
        b.update_refs_view()[spec_section_index(coord)] == value,
{
    a.lemma_wf_facts();
    lemma_index_bounds(coord);
}

impl<'a, D: 'a> Query<'a, D> for Id {
    type Output = Id;

    open spec fn spec_read(section: &'a Section<D>, index: int) -> Id {
        section.blocks_view()[index]
    }

    open spec fn spec_default() -> Id {
        Id(0)
    }

    fn read(section: &'a Section<D>, index: usize) -> (r: Id) {
        match &section.blocks {
            Some(blocks) => blocks[index],
            None => Id(0),
        }
    }

    fn default() -> (r: Id) {
        Id(0)
    }
}

impl<'a, D: 'a> Query<'a, D> for Occlusion {
    type Output = Occlusion;

    open spec fn spec_read(section: &'a Section<D>, index: int) -> Occlusion {
        section.occlusion_view()[index]
    }

    open spec fn spec_default() -> Occlusion {
        Occlusion(0)
    }

    fn read(section: &'a Section<D>, index: usize) -> (r: Occlusion) {
        match &section.occlusion {
            Some(occlusion) => occlusion[index],
            None => Occlusion(0),
        }
    }

    fn default() -> (r: Occlusion) {
        Occlusion(0)
    }
}

impl<'a, D: 'a> Query<'a, D> for BlockLight {
    type Output = u8;

    open spec fn spec_read(section: &'a Section<D>, index: int) -> u8 {
        section.block_light_at(index)
    }

    open spec fn spec_default() -> u8 {
        0
    }

    fn read(section: &'a Section<D>, index: usize) -> (r: u8) {
        match &section.block_light {
            Some(light) => read_nibble(light, index),
            None => 0,
        }
    }

    fn default() -> (r: u8) {
        0
    }
}

impl<'a, D: 'a> Query<'a, D> for SkyLight {
    type Output = u8;

    open spec fn spec_read(section: &'a Section<D>, index: int) -> u8 {
        section.sky_light_at(index)
    }

    open spec fn spec_default() -> u8 {
        15
    }

    fn read(section: &'a Section<D>, index: usize) -> (r: u8) {
        match &section.sky_light {
            Some(light) => read_nibble(light, index),
            None => 15,
        }
    }

    fn default() -> (r: u8) {
        15
    }
}

impl<'a, D: 'a> Query<'a, D> for Enabled {
    type Output = bool;

    open spec fn spec_read(section: &'a Section<D>, index: int) -> bool {
        section.update_refs_view()[index].0 != 0
    }

    open spec fn spec_default() -> bool {
        false
    }

    fn read(section: &'a Section<D>, index: usize) -> (r: bool) {
        match &section.update_refs {
            Some(refs) => refs[index].enabled(),
            None => false,
        }
    }

    fn default() -> (r: bool) {
        false
    }
}

impl<'a, D: 'a> Query<'a, D> for BlockData {
    type Output = Option<&'a D>;

    open spec fn spec_read(section: &'a Section<D>, index: int) -> Option<&'a D> {
        match section.data_view()[index] {
            Some(v) => Some(&v),
            None => None,
        }
    }

    open spec fn spec_default() -> Option<&'a D> {
        None
    }

    fn read(section: &'a Section<D>, index: usize) -> (r: Option<&'a D>) {
        match &section.block_data_refs {
            Some(refs) => section.block_data.get(refs[index]),
            None => None,
        }
    }

    fn default() -> (r: Option<&'a D>) {
        None
    }
}

} // verus!
