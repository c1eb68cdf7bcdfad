//! Which faces of a block are hidden by its neighbors.
use vstd::prelude::*;
use crate::bits::{bit8, lemma_bit8_update, lemma_u8_single_bit};
use crate::direction::{direction_index, direction_name, Direction};
use crate::faceflags::{append_name, joined, push_if};
use vstd::string::*;

verus! {

/// One bit per face, indexed by the direction's discriminant: a set bit is
/// a hidden face.
#[derive(Debug, Default, Clone, Copy, PartialEq, Eq, Hash, Structural)]
pub struct Occlusion(pub u8);

impl Occlusion {
    /// The face `face` is hidden.
    pub open spec fn is_hidden(self, face: Direction) -> bool {
        bit8(self.0, direction_index(face))
    }

    /// All six faces are hidden and no other bit is set.
    pub fn fully_occluded(self) -> (r: bool)
        ensures
            r == (self.0 == 0b111111),
    {
        self.0 == 0b111111
    }

    /// Shows a face; returns whether it was hidden.
    pub fn show(&mut self, face: Direction) -> (r: bool)
        ensures
            r == old(self).is_hidden(face),
            final(self).0 == old(self).0 & !(1u8 << direction_index(face)),
            !final(self).is_hidden(face),
            forall|d: Direction| d != face ==> final(self).is_hidden(d) == old(self).is_hidden(d),
    {
        let bit = face.bit();
        let old_hidden = self.0 & bit == bit;
        let v = self.0;
        proof {
            lemma_u8_single_bit(v, direction_index(face));
            assert forall|d: Direction| true implies #[trigger] bit8(v & !(1u8 << direction_index(face)), direction_index(d))
                == (direction_index(face) != direction_index(d) && bit8(v, direction_index(d))) by {
                lemma_bit8_update(v, direction_index(face), direction_index(d));
                crate::direction::lemma_direction_index_injective(d, face);
            }
        }
        self.0 = self.0 & !bit;
        old_hidden
    }

    /// Hides a face; returns whether it was hidden.
    pub fn conceal(&mut self, face: Direction) -> (r: bool)
        ensures
            r == old(self).is_hidden(face),
            final(self).0 == old(self).0 | (1u8 << direction_index(face)),
            final(self).is_hidden(face),
            forall|d: Direction| d != face ==> final(self).is_hidden(d) == old(self).is_hidden(d),
    {
        let bit = face.bit();
        let old_hidden = self.0 & bit == bit;
        let v = self.0;
        proof {
            lemma_u8_single_bit(v, direction_index(face));
            assert forall|d: Direction| true implies #[trigger] bit8(v | (1u8 << direction_index(face)), direction_index(d))
                == (direction_index(face) == direction_index(d) || bit8(v, direction_index(d))) by {
                lemma_bit8_update(v, direction_index(face), direction_index(d));
                crate::direction::lemma_direction_index_injective(d, face);
            }
        }
        self.0 = self.0 | bit;
        old_hidden
    }

    /// The face is not hidden.
    pub fn visible(self, face: Direction) -> (r: bool)
        ensures
            r == !self.is_hidden(face),
    {
        let bit = face.bit();
        let v = self.0;
        proof {
            lemma_u8_single_bit(v, direction_index(face));
        }
        self.0 & bit != bit
    }

    /// The face is hidden.
    pub fn hidden(self, face: Direction) -> (r: bool)
        ensures
            r == self.is_hidden(face),
    {
        !self.visible(face)
    }

    /// The -X face is visible.
    pub fn neg_x(self) -> (r: bool)
        ensures
            r == !self.is_hidden(Direction::NegX),
    {
        self.visible(Direction::NegX)
    }

    /// The -Y face is visible.
    pub fn neg_y(self) -> (r: bool)
        ensures
            r == !self.is_hidden(Direction::NegY),
    {
        self.visible(Direction::NegY)
    }

    /// The -Z face is visible.
    pub fn neg_z(self) -> (r: bool)
        ensures
            r == !self.is_hidden(Direction::NegZ),
    {
        self.visible(Direction::NegZ)
    }

    /// The +X face is visible.
    pub fn pos_x(self) -> (r: bool)
        ensures
            r == !self.is_hidden(Direction::PosX),
    {
        self.visible(Direction::PosX)
    }

    /// The +Y face is visible.
    pub fn pos_y(self) -> (r: bool)
        ensures
            r == !self.is_hidden(Direction::PosY),
    {
        self.visible(Direction::PosY)
    }

    /// The +Z face is visible.
    pub fn pos_z(self) -> (r: bool)
        ensures
            r == !self.is_hidden(Direction::PosZ),
    {
        self.visible(Direction::PosZ)
    }
}

/// Showing a face that was concealed while shown gives back the
/// occlusion of before.
pub proof fn law_show_undoes_conceal(o: Occlusion, concealed: Occlusion, shown: Occlusion, face: Direction)
    requires
        !o.is_hidden(face),
        concealed.0 == o.0 | (1u8 << direction_index(face)),
        shown.0 == concealed.0 & !(1u8 << direction_index(face)),
    ensures
        shown == o,
{
    let v = o.0;
    let i = direction_index(face);
    crate::direction::lemma_direction_index_injective(face, face);
    assert(v & (1u8 << i) == 0 ==> (v | (1u8 << i)) & !(1u8 << i) == v) by (bit_vector)
        requires
            i < 8,
    ;
}

/// The names of the hidden faces, in the order `NegX`, `NegY`, `NegZ`,
/// `PosX`, `PosY`, `PosZ`.
pub open spec fn hidden_names(o: Occlusion) -> Seq<Seq<char>> {
    let n0 = push_if(Seq::empty(), o.is_hidden(Direction::NegX), direction_name(Direction::NegX));
    let n1 = push_if(n0, o.is_hidden(Direction::NegY), direction_name(Direction::NegY));
    let n2 = push_if(n1, o.is_hidden(Direction::NegZ), direction_name(Direction::NegZ));
    let n3 = push_if(n2, o.is_hidden(Direction::PosX), direction_name(Direction::PosX));
    let n4 = push_if(n3, o.is_hidden(Direction::PosY), direction_name(Direction::PosY));
    push_if(n4, o.is_hidden(Direction::PosZ), direction_name(Direction::PosZ))
}

impl Occlusion {
    /// Written as `Occlusion(` and the names of the hidden faces joined by
    /// `|`, then `)`.
    pub fn to_string(&self) -> (r: String)
        ensures
            r@ == "Occlusion("@ + joined(hidden_names(*self)) + ")"@,
    {
        let mut text = String::from_str("Occlusion(");
        let ghost mut names: Seq<Seq<char>> = Seq::empty();
        let mut sep = false;
        assert(text@ =~= "Occlusion("@ + joined(names));
        if self.hidden(Direction::NegX) {
            append_name(&mut text, sep, "NegX", Ghost("Occlusion("@), Ghost(names));
            proof { names = names.push("NegX"@); }
            sep = true;
        }
        if self.hidden(Direction::NegY) {
            append_name(&mut text, sep, "NegY", Ghost("Occlusion("@), Ghost(names));
            proof { names = names.push("NegY"@); }
            sep = true;
        }
        if self.hidden(Direction::NegZ) {
            append_name(&mut text, sep, "NegZ", Ghost("Occlusion("@), Ghost(names));
            proof { names = names.push("NegZ"@); }
            sep = true;
        }
        if self.hidden(Direction::PosX) {
            append_name(&mut text, sep, "PosX", Ghost("Occlusion("@), Ghost(names));
            proof { names = names.push("PosX"@); }
            sep = true;
        }
        if self.hidden(Direction::PosY) {
            append_name(&mut text, sep, "PosY", Ghost("Occlusion("@), Ghost(names));
            proof { names = names.push("PosY"@); }
            sep = true;
        }
        if self.hidden(Direction::PosZ) {
            append_name(&mut text, sep, "PosZ", Ghost("Occlusion("@), Ghost(names));
            proof { names = names.push("PosZ"@); }
        }
        assert(names == hidden_names(*self));
        text.append(")");
        text
    }
}

impl core::ops::BitOr<Occlusion> for Occlusion {
    type Output = Occlusion;

    fn bitor(self, rhs: Occlusion) -> (r: Occlusion) {
        Occlusion(self.0 | rhs.0)
    }
}

impl vstd::std_specs::ops::BitOrSpecImpl<Occlusion> for Occlusion {
    open spec fn obeys_bitor_spec() -> bool {
        true
    }

    open spec fn bitor_req(self, rhs: Occlusion) -> bool {
        true
    }

    open spec fn bitor_spec(self, rhs: Occlusion) -> Occlusion {
        Occlusion(self.0 | rhs.0)
    }
}

impl core::ops::BitAnd<Occlusion> for Occlusion {
    type Output = Occlusion;

    fn bitand(self, rhs: Occlusion) -> (r: Occlusion) {
        Occlusion(self.0 & rhs.0)
    }
}

impl vstd::std_specs::ops::BitAndSpecImpl<Occlusion> for Occlusion {
    open spec fn obeys_bitand_spec() -> bool {
        true
    }

    open spec fn bitand_req(self, rhs: Occlusion) -> bool {
        true
    }

    open spec fn bitand_spec(self, rhs: Occlusion) -> Occlusion {
        Occlusion(self.0 & rhs.0)
    }
}

impl core::ops::Sub<Occlusion> for Occlusion {
    type Output = Occlusion;

    fn sub(self, rhs: Occlusion) -> (r: Occlusion) {
        Occlusion(self.0 & !rhs.0)
    }
}

impl vstd::std_specs::ops::SubSpecImpl<Occlusion> for Occlusion {
    open spec fn obeys_sub_spec() -> bool {
        true
    }

    open spec fn sub_req(self, rhs: Occlusion) -> bool {
        true
    }

    open spec fn sub_spec(self, rhs: Occlusion) -> Occlusion {
        Occlusion(self.0 & !rhs.0)
    }
}

impl core::ops::BitAnd<Direction> for Occlusion {
    type Output = bool;

    fn bitand(self, rhs: Direction) -> (r: bool) {
        self.visible(rhs)
    }
}

impl vstd::std_specs::ops::BitAndSpecImpl<Direction> for Occlusion {
    open spec fn obeys_bitand_spec() -> bool {
        true
    }

    open spec fn bitand_req(self, rhs: Direction) -> bool {
        true
    }

    open spec fn bitand_spec(self, rhs: Direction) -> bool {
        !self.is_hidden(rhs)
    }
}

} // verus!
