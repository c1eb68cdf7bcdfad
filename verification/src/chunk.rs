//! A column of 40 sections from the bottom of the world to its top, with the
//! heightmap of its solid blocks.
use vstd::prelude::*;
use crate::blocks::Id;
use crate::coord::Coord;
use crate::heightmap::{spec_col_index, Heightmap};
use crate::direction::Direction;
use crate::occlusion::Occlusion;
use crate::section::{
    law_set_block_get,     data_room_pre, delete_data_post, delete_data_pre, hide_face_post, max_u8, set_block_light_post,
    set_block_light_pre, set_block_post, set_data_post, set_sky_light_post, set_sky_light_pre,
    same_but_data, set_update_ref_post, show_face_post, spec_section_index, LightChange, Section, SectionUpdate,
    StateChange,
};
use crate::query::Query;
use crate::update::UpdateRef;
use crate::timestamp::Timestamp;

verus! {

/// The number of sections in a chunk.
pub const SECTION_COUNT: usize = 40;

/// `v` is `16 * (v >> 4)` plus its low four bits.
proof fn lemma_low_bits(v: i32)
    ensures
        v == 16 * (v >> 4i32) + (v & 15i32),
        0 <= v & 15i32 < 16,
{
    assert(v == 16 * (v >> 4i32) + (v & 15i32) && 0 <= v & 15i32 < 16) by (bit_vector);
}

/// The column index of `(x, z)` packs their low four bits.
proof fn lemma_col_index(x: i32, z: i32)
    ensures
        spec_col_index(x, z) == (x & 15i32) + 16 * (z & 15i32),
{
    assert((x & 15i32) | ((z & 15i32) << 4i32) == (x & 15i32) + 16 * (z & 15i32)) by (bit_vector);
}

/// Two blocks of a chunk with bottom `bottom` share a heightmap cell exactly
/// when they share a section and a place in it.
proof fn lemma_same_cell(bottom: i32, c: Coord, d: Coord)
    requires
        bottom <= c.y < bottom + 640,
        bottom <= d.y < bottom + 640,
    ensures
        (spec_col_index(c.x, c.z) == spec_col_index(d.x, d.z) && c.y == d.y) == ((c.y - bottom) / 16
            == (d.y - bottom) / 16 && spec_section_index(c) == spec_section_index(d)),
{
    lemma_col_index(c.x, c.z);
    lemma_col_index(d.x, d.z);
    lemma_low_bits(c.x);
    lemma_low_bits(c.z);
    lemma_low_bits(c.y);
    lemma_low_bits(d.x);
    lemma_low_bits(d.z);
    lemma_low_bits(d.y);
}

/// Sections from the bottom of the world to its top, the heightmap of their
/// solid blocks, the position of the lowest block and the time of the last
/// change. `T` is the type of the block data.
pub struct Chunk<T> {
    sections: Vec<Section<T>>,
    heightmap: Heightmap,
    block_offset: Coord,
    edit_time: Timestamp,
}

impl<T> Chunk<T> {
    /// Section `k`, from the bottom.
    pub closed spec fn section(&self, k: int) -> Section<T> {
        self.sections@[k]
    }

    /// The sections, from the bottom.
    pub closed spec fn sections_view(&self) -> Seq<Section<T>> {
        self.sections@
    }

    /// The heightmap of the chunk.
    pub closed spec fn heightmap(&self) -> Heightmap {
        self.heightmap
    }

    /// The position of the lowest block.
    pub closed spec fn offset(&self) -> Coord {
        self.block_offset
    }

    /// The time of the last change.
    pub closed spec fn edit_time(&self) -> Timestamp {
        self.edit_time
    }

    /// `c` lies in the height of the chunk.
    pub open spec fn in_height(&self, c: Coord) -> bool {
        self.offset().y <= c.y < self.offset().y + 640
    }

    /// The index of the section that holds `c`.
    pub open spec fn section_of(&self, c: Coord) -> int {
        (c.y - self.offset().y) / 16
    }

    /// The state of the block at `c`.
    pub open spec fn block_at(&self, c: Coord) -> Id {
        self.section(self.section_of(c)).blocks_view()[spec_section_index(c)]
    }

    /// The heightmap marks the block at `c` as solid.
    pub open spec fn solid_at(&self, c: Coord) -> bool {
        self.heightmap().column(spec_col_index(c.x, c.z))[c.y - self.offset().y]
    }

    /// The other sections are those of `old`.
    pub open spec fn others_kept(&self, old: &Self, k: int) -> bool {
        forall|j: int| 0 <= j < 40 && j != k ==> #[trigger] self.section(j) == old.section(j)
    }

    /// Only section `k` may differ from `old`; the heightmap and the
    /// position are those of `old`.
    pub open spec fn kept_but(&self, old: &Self, k: int) -> bool {
        &&& self.others_kept(old, k)
        &&& self.heightmap() == old.heightmap()
        &&& self.offset() == old.offset()
    }

    /// There are 40 well-formed sections, the heightmap is well formed, its
    /// heights are those of its columns, and it marks exactly the blocks that
    /// are not air.
    pub closed spec fn wf(&self) -> bool {
        &&& self.sections@.len() == 40
        &&& forall|k: int| 0 <= k < 40 ==> (#[trigger] self.sections@[k]).wf()
        &&& self.heightmap.wf()
        &&& self.heightmap.consistent()
        &&& forall|c: Coord|
            #![trigger self.block_at(c)]
            #![trigger self.solid_at(c)]
            self.in_height(c) ==> (self.solid_at(c) == (self.block_at(c).0 != 0))
    }

    /// An empty chunk whose lowest block is at `offset`, stamped with the
    /// current time (see [`Chunk::new_at`]).
    pub fn new(offset: Coord) -> (r: Self)
        ensures
            r.wf(),
            r.offset() == offset,
            forall|k: int| 0 <= k < 40 ==> (#[trigger] r.section(k)).is_blank(),
    {
        Self::new_at(offset, Timestamp::utc_now())
    }

    /// An empty chunk whose lowest block is at `offset`, stamped with
    /// `edit_time`.
    pub fn new_at(offset: Coord, edit_time: Timestamp) -> (r: Self)
        ensures
            r.wf(),
            r.offset() == offset,
            r.edit_time() == edit_time,
            forall|k: int| 0 <= k < 40 ==> (#[trigger] r.section(k)).is_blank(),
    {
        let mut sections: Vec<Section<T>> = Vec::new();
        let mut i: usize = 0;
        while i < SECTION_COUNT
            invariant
                i <= 40,
                sections@.len() == i,
                forall|k: int| 0 <= k < i ==> (#[trigger] sections@[k]).wf() && sections@[k].is_blank(),
            decreases 40 - i,
        {
            sections.push(Section::new());
            i = i + 1;
        }
        let r = Self { sections, heightmap: Heightmap::new(), block_offset: offset, edit_time };
        proof {
            assert forall|c: Coord| r.in_height(c) implies (r.solid_at(c) == (r.block_at(c).0 != 0)) by {
                let k = r.section_of(c);
                assert(r.section(k).is_blank());
                lemma_col_index(c.x, c.z);
                lemma_low_bits(c.x);
                lemma_low_bits(c.z);
                lemma_low_bits(c.y);
                assert(r.section(k).blocks_view()[spec_section_index(c)] == Id(0));
                assert(!r.heightmap().column(spec_col_index(c.x, c.z))[c.y - offset.y]);
            }
        }
        r
    }

    /// The index of the section that holds `coord`.
    fn section_index(&self, coord: Coord) -> (k: usize)
        requires
            self.wf(),
            self.in_height(coord),
        ensures
            k == self.section_of(coord),
            k < 40,
    {
        ((coord.y - self.block_offset.y) / 16) as usize
    }

    /// The height of the lowest block.
    pub fn y(&self) -> (r: i32)
        ensures
            r == self.offset().y,
    {
        self.block_offset.y
    }

    /// The section height of the lowest block (`y >> 4`).
    pub fn section_y(&self) -> (r: i32)
        ensures
            r == self.offset().y >> 4i32,
    {
        self.block_offset.y >> 4
    }

    /// The time of the last change.
    pub fn edit_timestamp(&self) -> (r: Timestamp)
        ensures
            r == self.edit_time(),
    {
        self.edit_time
    }

    /// Stamps the chunk with the current time (see
    /// [`Chunk::set_edit_time`]); nothing else changes.
    pub fn mark_modified(&mut self)
        ensures
            final(self).sections_view() == old(self).sections_view(),
            final(self).heightmap() == old(self).heightmap(),
            final(self).offset() == old(self).offset(),
            old(self).wf() ==> final(self).wf(),
    {
        self.set_edit_time(Timestamp::utc_now());
    }

    /// Stamps the chunk with `time`; nothing else changes.
    pub fn set_edit_time(&mut self, time: Timestamp)
        ensures
            final(self).edit_time() == time,
            final(self).sections_view() == old(self).sections_view(),
            final(self).heightmap() == old(self).heightmap(),
            final(self).offset() == old(self).offset(),
            old(self).wf() ==> final(self).wf(),
    {
        self.edit_time = time;
        proof {
            if old(self).wf() {
                assert forall|c: Coord| self.in_height(c) implies (self.solid_at(c) == (self.block_at(c).0 != 0)) by {
                    assert(old(self).in_height(c));
                    assert(old(self).solid_at(c) == (old(self).block_at(c).0 != 0));
                }
            }
        }
    }

    /// The state of the block at `coord`.
    pub fn get_block(&self, coord: Coord) -> (r: Id)
        requires
            self.wf(),
            self.in_height(coord),
        ensures
            r == self.block_at(coord),
    {
        let k = self.section_index(coord);
        self.sections[k].get_block(coord)
    }

    /// Sets the state of the block at `coord` and marks it in the heightmap
    /// as solid or not. When the state changes, the chunk is stamped with
    /// the current time.
    pub fn set_block(&mut self, coord: Coord, value: Id) -> (r: SectionUpdate<StateChange>)
        requires
            old(self).wf(),
            old(self).in_height(coord),
        ensures
            final(self).wf(),
            set_block_post(old(self).section(old(self).section_of(coord)), final(self).section(old(self).section_of(coord)), coord, value, r),
            final(self).others_kept(old(self), old(self).section_of(coord)),
            final(self).offset() == old(self).offset(),
            r.change is Unchanged ==> final(self).edit_time() == old(self).edit_time(),
    {
        let k = self.section_index(coord);
        let dy = coord.y - self.block_offset.y;
        let nonair = value.0 != 0;
        self.heightmap.set(Coord::new(coord.x, dy, coord.z), nonair);
        let ghost mid = *self;
        let update = self.sections[k].set_block(coord, value);
        proof {
            let i = spec_section_index(coord);
            lemma_low_bits(coord.x);
            lemma_low_bits(coord.z);
            lemma_low_bits(coord.y);
            assert forall|j: int| 0 <= j < 40 implies (#[trigger] self.sections@[j]).wf() by {
                if j != k {
                    assert(self.sections@[j] == old(self).sections@[j]);
                }
            }
            assert forall|c: Coord| self.in_height(c) implies (self.solid_at(c) == (self.block_at(c).0 != 0)) by {
                lemma_same_cell(self.block_offset.y, c, coord);
                lemma_col_index(c.x, c.z);
                lemma_col_index(coord.x, coord.z);
                lemma_low_bits(c.x);
                lemma_low_bits(c.z);
                lemma_low_bits(c.y);
                assert(old(self).solid_at(c) == (old(self).block_at(c).0 != 0));
                let same = spec_col_index(c.x, c.z) == spec_col_index(coord.x, coord.z) && c.y == coord.y;
                let cc = spec_col_index(c.x, c.z);
                old(self).heightmap.lemma_column_len(cc);
                self.heightmap.lemma_column_len(cc);
                old(self).section(self.section_of(c)).lemma_wf_facts();
                assert(self.heightmap.column(cc) == if cc == spec_col_index(coord.x, coord.z) {
                    old(self).heightmap.column(cc).update(dy as int, nonair)
                } else {
                    old(self).heightmap.column(cc)
                });
                if same {
                    assert(self.solid_at(c) == nonair);
                    assert(self.block_at(c) == value);
                } else {
                    assert(self.solid_at(c) == old(self).solid_at(c));
                    if self.section_of(c) != k {
                        assert(self.section(self.section_of(c)) == old(self).section(self.section_of(c)));
                    } else {
                        assert(spec_section_index(c) != i);
                    }
                    assert(self.block_at(c) == old(self).block_at(c));
                }
            }
        }
        if update.change.changed() {
            self.mark_modified();
        }
        update
    }

    /// A chunk that differs from a well-formed one only in one well-formed
    /// section with the same blocks is well formed.
    proof fn lemma_wf_kept(old: Self, new: Self, k: int)
        requires
            old.wf(),
            0 <= k < 40,
            new.sections@.len() == 40,
            new.kept_but(&old, k),
            new.section(k).wf(),
            new.section(k).blocks_view() == old.section(k).blocks_view(),
        ensures
            new.wf(),
    {
        assert forall|j: int| 0 <= j < 40 implies (#[trigger] new.sections@[j]).wf() by {
            if j != k {
                assert(new.section(j) == old.section(j));
            }
        }
        assert forall|c: Coord| new.in_height(c) implies (new.solid_at(c) == (new.block_at(c).0 != 0)) by {
            assert(old.in_height(c));
            assert(old.solid_at(c) == (old.block_at(c).0 != 0));
            if new.section_of(c) != k {
                assert(new.section(new.section_of(c)) == old.section(new.section_of(c)));
            }
        }
    }

    /// Every chunk that differs from a well-formed one only in one
    /// well-formed section with the same blocks is well formed.
    proof fn lemma_wf_any(old: Self, k: int)
        requires
            old.wf(),
            0 <= k < 40,
        ensures
            forall|n: Self|
                n.sections_view().len() == 40 && n.kept_but(&old, k) && n.section(k).wf()
                    && n.section(k).blocks_view() == old.section(k).blocks_view() ==> #[trigger] n.wf(),
    {
        assert forall|n: Self|
            n.sections_view().len() == 40 && n.kept_but(&old, k) && n.section(k).wf()
                && n.section(k).blocks_view() == old.section(k).blocks_view() implies #[trigger] n.wf() by {
            Self::lemma_wf_kept(old, n, k);
        }
    }

    /// What query `Q` reads of the block at `coord`.
    pub fn query<'a, Q: Query<'a, T>>(&'a self, coord: Coord) -> (r: Q::Output)
        requires
            self.wf(),
            self.in_height(coord),
        ensures
            r == Q::spec_read(&self.section(self.section_of(coord)), spec_section_index(coord)),
    {
        let k = self.section_index(coord);
        self.sections[k].query::<Q>(coord)
    }

    /// The update handle of the block at `coord`.
    pub fn get_update_ref(&self, coord: Coord) -> (r: UpdateRef)
        requires
            self.wf(),
            self.in_height(coord),
        ensures
            r == self.section(self.section_of(coord)).update_refs_view()[spec_section_index(coord)],
    {
        let k = self.section_index(coord);
        self.sections[k].get_update_ref(coord)
    }

    /// Sets the update handle of the block at `coord` and returns the old
    /// one; when it changes, the chunk is stamped with the current time.
    pub fn set_update_ref(&mut self, coord: Coord, value: UpdateRef) -> (r: UpdateRef)
        requires
            old(self).wf(),
            old(self).in_height(coord),
        ensures
            final(self).wf(),
            set_update_ref_post(
                old(self).section(old(self).section_of(coord)),
                final(self).section(old(self).section_of(coord)),
                coord,
                value,
                r,
            ),
            final(self).kept_but(old(self), old(self).section_of(coord)),
            r == value ==> final(self).edit_time() == old(self).edit_time(),
    {
        let k = self.section_index(coord);
        let r = self.sections[k].set_update_ref(coord, value);
        proof {
            Self::lemma_wf_kept(*old(self), *self, k as int);
        }
        if r != value {
            self.mark_modified();
        }
        r
    }

    /// The hidden faces of the block at `coord`.
    pub fn occlusion(&self, coord: Coord) -> (r: Occlusion)
        requires
            self.wf(),
            self.in_height(coord),
        ensures
            r == self.section(self.section_of(coord)).occlusion_view()[spec_section_index(coord)],
    {
        let k = self.section_index(coord);
        self.sections[k].occlusion(coord)
    }

    /// The face of the block at `coord` is not hidden.
    pub fn face_visible(&self, coord: Coord, face: Direction) -> (r: bool)
        requires
            self.wf(),
            self.in_height(coord),
        ensures
            r == !self.section(self.section_of(coord)).occlusion_view()[spec_section_index(coord)].is_hidden(face),
    {
        let k = self.section_index(coord);
        self.sections[k].face_visible(coord, face)
    }

    /// Shows a face of the block at `coord` (the chunk is not stamped).
    pub fn show_face(&mut self, coord: Coord, face: Direction) -> (r: SectionUpdate<bool>)
        requires
            old(self).wf(),
            old(self).in_height(coord),
        ensures
            final(self).wf(),
            show_face_post(
                old(self).section(old(self).section_of(coord)),
                final(self).section(old(self).section_of(coord)),
                coord,
                face,
                r,
            ),
            final(self).kept_but(old(self), old(self).section_of(coord)),
            final(self).edit_time() == old(self).edit_time(),
    {
        let k = self.section_index(coord);
        let r = self.sections[k].show_face(coord, face);
        proof {
            Self::lemma_wf_kept(*old(self), *self, k as int);
        }
        r
    }

    /// Hides a face of the block at `coord` (the chunk is not stamped).
    pub fn hide_face(&mut self, coord: Coord, face: Direction) -> (r: SectionUpdate<bool>)
        requires
            old(self).wf(),
            old(self).in_height(coord),
        ensures
            final(self).wf(),
            hide_face_post(
                old(self).section(old(self).section_of(coord)),
                final(self).section(old(self).section_of(coord)),
                coord,
                face,
                r,
            ),
            final(self).kept_but(old(self), old(self).section_of(coord)),
            final(self).edit_time() == old(self).edit_time(),
    {
        let k = self.section_index(coord);
        let r = self.sections[k].hide_face(coord, face);
        proof {
            Self::lemma_wf_kept(*old(self), *self, k as int);
        }
        r
    }

    /// The greater of the block light and the sky light of the block at
    /// `coord`.
    pub fn get_light(&self, coord: Coord) -> (r: u8)
        requires
            self.wf(),
            self.in_height(coord),
        ensures
            r == max_u8(
                self.section(self.section_of(coord)).block_light_at(spec_section_index(coord)),
                self.section(self.section_of(coord)).sky_light_at(spec_section_index(coord)),
            ),
    {
        let k = self.section_index(coord);
        self.sections[k].get_light(coord)
    }

    /// The block light of the block at `coord`.
    pub fn get_block_light(&self, coord: Coord) -> (r: u8)
        requires
            self.wf(),
            self.in_height(coord),
        ensures
            r == self.section(self.section_of(coord)).block_light_at(spec_section_index(coord)),
    {
        let k = self.section_index(coord);
        self.sections[k].get_block_light(coord)
    }

    /// The sky light of the block at `coord`.
    pub fn get_sky_light(&self, coord: Coord) -> (r: u8)
        requires
            self.wf(),
            self.in_height(coord),
        ensures
            r == self.section(self.section_of(coord)).sky_light_at(spec_section_index(coord)),
    {
        let k = self.section_index(coord);
        self.sections[k].get_sky_light(coord)
    }

    /// Sets the block light of the block at `coord`; when the level
    /// changes, the chunk is stamped with the current time.
    pub fn set_block_light(&mut self, coord: Coord, level: u8) -> (r: SectionUpdate<LightChange>)
        requires
            old(self).wf(),
            old(self).in_height(coord),
            set_block_light_pre(old(self).section(old(self).section_of(coord)), coord, level),
        ensures
            final(self).wf(),
            set_block_light_post(
                old(self).section(old(self).section_of(coord)),
                final(self).section(old(self).section_of(coord)),
                coord,
                level,
                r,
            ),
            final(self).kept_but(old(self), old(self).section_of(coord)),
            r.change.new_level == r.change.old_level ==> final(self).edit_time() == old(self).edit_time(),
    {
        let k = self.section_index(coord);
        let r = self.sections[k].set_block_light(coord, level);
        proof {
            Self::lemma_wf_kept(*old(self), *self, k as int);
        }
        if r.change.changed() {
            self.mark_modified();
        }
        r
    }

    /// Sets the sky light of the block at `coord`; when the level changes,
    /// the chunk is stamped with the current time.
    pub fn set_sky_light(&mut self, coord: Coord, level: u8) -> (r: SectionUpdate<LightChange>)
        requires
            old(self).wf(),
            old(self).in_height(coord),
            set_sky_light_pre(old(self).section(old(self).section_of(coord)), coord, level),
        ensures
            final(self).wf(),
            set_sky_light_post(
                old(self).section(old(self).section_of(coord)),
                final(self).section(old(self).section_of(coord)),
                coord,
                level,
                r,
            ),
            final(self).kept_but(old(self), old(self).section_of(coord)),
            r.change.new_level == r.change.old_level ==> final(self).edit_time() == old(self).edit_time(),
    {
        let k = self.section_index(coord);
        let r = self.sections[k].set_sky_light(coord, level);
        proof {
            Self::lemma_wf_kept(*old(self), *self, k as int);
        }
        if r.change.changed() {
            self.mark_modified();
        }
        r
    }

    /// The data of the block at `coord`, if it has any.
    pub fn get_data(&self, coord: Coord) -> (r: Option<&T>)
        requires
            self.wf(),
            self.in_height(coord),
        ensures
            r is Some == self.section(self.section_of(coord)).data_view()[spec_section_index(coord)] is Some,
            r matches Some(v) ==> *v == self.section(self.section_of(coord)).data_view()[spec_section_index(
                coord,
            )].unwrap(),
    {
        let k = self.section_index(coord);
        self.sections[k].get_data(coord)
    }

    /// Removes the data of the block at `coord` and returns it; when there
    /// was some, the chunk is stamped with the current time.
    pub fn delete_data(&mut self, coord: Coord) -> (r: Option<T>)
        requires
            old(self).wf(),
            old(self).in_height(coord),
            delete_data_pre(old(self).section(old(self).section_of(coord)), coord),
        ensures
            final(self).wf(),
            delete_data_post(
                old(self).section(old(self).section_of(coord)),
                final(self).section(old(self).section_of(coord)),
                coord,
                r,
            ),
            final(self).kept_but(old(self), old(self).section_of(coord)),
            r is None ==> final(self).edit_time() == old(self).edit_time(),
    {
        let k = self.section_index(coord);
        let r = self.sections[k].delete_data(coord);
        proof {
            Self::lemma_wf_kept(*old(self), *self, k as int);
        }
        if r.is_some() {
            self.mark_modified();
        }
        r
    }

    /// Stores `tag` as the data of the block at `coord`, returns the data it
    /// had and stamps the chunk with the current time.
    pub fn set_data(&mut self, coord: Coord, tag: T) -> (r: Option<T>)
        requires
            old(self).wf(),
            old(self).in_height(coord),
            data_room_pre(old(self).section(old(self).section_of(coord)), coord),
        ensures
            final(self).wf(),
            set_data_post(
                old(self).section(old(self).section_of(coord)),
                final(self).section(old(self).section_of(coord)),
                coord,
                tag,
                r,
            ),
            final(self).kept_but(old(self), old(self).section_of(coord)),
    {
        let k = self.section_index(coord);
        self.mark_modified();
        let ghost stamped = *self;
        let r = self.sections[k].set_data(coord, tag);
        proof {
            Self::lemma_wf_kept(stamped, *self, k as int);
        }
        r
    }

    /// The height of the column of `(x, z)`: one above its highest solid
    /// block, counted from the bottom of the world.
    pub fn height(&self, x: i32, z: i32) -> (r: i32)
        requires
            self.wf(),
            self.offset().y + 640 <= i32::MAX,
        ensures
            r == self.heightmap().heights()[spec_col_index(x, z)] + self.offset().y,
    {
        self.heightmap.height(x, z) + self.block_offset.y
    }

    /// The data of the block at `coord`, if it has any, to change in place.
    pub fn get_data_mut(&mut self, coord: Coord) -> (r: Option<&mut T>)
        requires
            old(self).wf(),
            old(self).in_height(coord),
        ensures
            final(self).wf(),
            ({
                let k = old(self).section_of(coord);
                let i = spec_section_index(coord);
                let d = old(self).section(k).data_view()[i];
                &&& d is None ==> r is None && final(self).section(k) == old(self).section(k)
                &&& d is Some ==> (r matches Some(v) && *v == d.unwrap() && final(self).section(k).data_view()
                    == old(self).section(k).data_view().update(i, Some(*final(v))))
                &&& same_but_data(old(self).section(k), final(self).section(k))
            }),
            final(self).kept_but(old(self), old(self).section_of(coord)),
            final(self).edit_time() == old(self).edit_time(),
    {
        let k = self.section_index(coord);
        let ghost k0 = k as int;
        proof {
            Self::lemma_wf_any(*old(self), k0);
        }
        let r = self.sections[k].get_data_mut(coord);
        r
    }

    /// The data of the block at `coord`; where it has none, `default` is
    /// stored first (the chunk is not stamped).
    pub fn get_or_insert_data(&mut self, coord: Coord, default: T) -> (r: &mut T)
        requires
            old(self).wf(),
            old(self).in_height(coord),
            data_room_pre(old(self).section(old(self).section_of(coord)), coord),
        ensures
            final(self).wf(),
            ({
                let k = old(self).section_of(coord);
                let i = spec_section_index(coord);
                let d = old(self).section(k).data_view()[i];
                &&& *r == if d is Some {
                    d.unwrap()
                } else {
                    default
                }
                &&& final(self).section(k).data_view() == old(self).section(k).data_view().update(i, Some(*final(r)))
                &&& same_but_data(old(self).section(k), final(self).section(k))
            }),
            final(self).kept_but(old(self), old(self).section_of(coord)),
            final(self).edit_time() == old(self).edit_time(),
    {
        let k = self.section_index(coord);
        proof {
            Self::lemma_wf_any(*old(self), k as int);
        }
        self.sections[k].get_or_insert_data(coord, default)
    }

    /// The data of the block at `coord`; where it has none, what `f`
    /// returns is stored first (the chunk is not stamped).
    pub fn get_or_insert_data_with<F: FnOnce() -> T>(&mut self, coord: Coord, f: F) -> (r: &mut T)
        requires
            old(self).wf(),
            old(self).in_height(coord),
            data_room_pre(old(self).section(old(self).section_of(coord)), coord),
            old(self).section(old(self).section_of(coord)).data_view()[spec_section_index(coord)] is None
                ==> f.requires(()),
        ensures
            final(self).wf(),
            ({
                let k = old(self).section_of(coord);
                let i = spec_section_index(coord);
                let d = old(self).section(k).data_view()[i];
                &&& d is Some ==> *r == d.unwrap()
                &&& d is None ==> f.ensures((), *r)
                &&& final(self).section(k).data_view() == old(self).section(k).data_view().update(i, Some(*final(r)))
                &&& same_but_data(old(self).section(k), final(self).section(k))
            }),
            final(self).kept_but(old(self), old(self).section_of(coord)),
            final(self).edit_time() == old(self).edit_time(),
    {
        let k = self.section_index(coord);
        proof {
            Self::lemma_wf_any(*old(self), k as int);
        }
        self.sections[k].get_or_insert_data_with(coord, f)
    }
}

/// In a well-formed chunk the heightmap marks a block as solid exactly when
/// it is not air.
pub proof fn law_heightmap_marks_solid<T>(chunk: Chunk<T>, c: Coord)
    requires
        chunk.wf(),
        chunk.in_height(c),
    ensures
        chunk.solid_at(c) == (chunk.block_at(c).0 != 0),
{
}

/// Reading a block of a chunk back gives the state that was set.
pub proof fn law_chunk_set_get<T>(a: Chunk<T>, b: Chunk<T>, coord: Coord, state: Id, r: SectionUpdate<StateChange>)
    requires
        a.wf(),
        a.in_height(coord),
        set_block_post(a.section(a.section_of(coord)), b.section(a.section_of(coord)), coord, state, r),
        b.kept_but(&a, a.section_of(coord)),
    ensures
        b.block_at(coord) == state,
{
    let k = a.section_of(coord);
    assert(a.section(k).wf());
    law_set_block_get(a.section(k), b.section(k), coord, state, r);
}

} // verus!
