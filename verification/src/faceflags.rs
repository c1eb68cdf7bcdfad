//! A set of block faces packed into the low six bits of a byte.
use vstd::prelude::*;
use vstd::string::*;
use vstd::std_specs::ops::{BitAndSpec, BitOrSpec, NotSpec};
use crate::bits::{bit8, lemma_bit8_update, lemma_u8_shifts};
use crate::direction::{direction_index, Direction};

verus! {

/// One bit per face, indexed by the direction's discriminant (`PosY` 0,
/// `PosX` 1, `PosZ` 2, `NegY` 3, `NegX` 4, `NegZ` 5).
#[derive(Debug, Default, Clone, Copy, PartialEq, Eq, Hash, Structural)]
pub struct FaceFlags(pub u8);

impl FaceFlags {
    /// The packed bits.
    pub open spec fn value(self) -> u8 {
        self.0
    }

    /// The face is in the set.
    pub open spec fn has(self, face: Direction) -> bool {
        bit8(self.value(), direction_index(face))
    }

    /// The set of the faces whose flag is `true`.
    pub fn new(pos_x: bool, pos_y: bool, pos_z: bool, neg_x: bool, neg_y: bool, neg_z: bool) -> (r: Self)
        ensures
            r.has(Direction::PosX) == pos_x,
            r.has(Direction::PosY) == pos_y,
            r.has(Direction::PosZ) == pos_z,
            r.has(Direction::NegX) == neg_x,
            r.has(Direction::NegY) == neg_y,
            r.has(Direction::NegZ) == neg_z,
            r.value() < 64,
    {
        let a: u8 = if pos_y { 1 } else { 0 };
        let b: u8 = if pos_x { 2 } else { 0 };
        let c: u8 = if pos_z { 4 } else { 0 };
        let d: u8 = if neg_y { 8 } else { 0 };
        let e: u8 = if neg_x { 16 } else { 0 };
        let f: u8 = if neg_z { 32 } else { 0 };
        let v = a | b | c | d | e | f;
        proof {
            lemma_u8_shifts();
            assert(v < 64 && (v & 1 != 0) == (a == 1) && (v & 2 != 0) == (b == 2) && (v & 4 != 0) == (c == 4)
                && (v & 8 != 0) == (d == 8) && (v & 16 != 0) == (e == 16) && (v & 32 != 0) == (f == 32)) by (bit_vector)
                requires
                    a == 1 || a == 0,
                    b == 2 || b == 0,
                    c == 4 || c == 0,
                    d == 8 || d == 0,
                    e == 16 || e == 0,
                    f == 32 || f == 0,
                    v == a | b | c | d | e | f,
            ;
        }
        FaceFlags(v)
    }

    /// The face is in the set.
    pub fn get(self, face: Direction) -> (r: bool)
        ensures
            r == self.has(face),
    {
        self.0 & face.bit() != 0
    }

    /// Adds or removes a face; returns whether it was in the set.
    pub fn set(&mut self, face: Direction, value: bool) -> (r: bool)
        ensures
            r == old(self).has(face),
            final(self).has(face) == value,
            forall|d: Direction| d != face ==> final(self).has(d) == old(self).has(d),
            final(self).value() & !0b111111u8 == old(self).value() & !0b111111u8,
            final(self).value() == if value {
                old(self).value() | (1u8 << direction_index(face))
            } else {
                old(self).value() & !(1u8 << direction_index(face))
            },
    {
        let bit = face.bit();
        let v = self.0;
        let previous = v & bit != 0;
        self.0 = if value { v | bit } else { v & !bit };
        proof {
            let i = direction_index(face);
            assert forall|d: Direction| d != face implies #[trigger] self.has(d) == old(self).has(d) by {
                lemma_bit8_update(v, i, direction_index(d));
                crate::direction::lemma_direction_index_injective(d, face);
            }
            lemma_bit8_update(v, i, i);
            lemma_high_bits_kept(v, i);
        }
        previous
    }

    /// `PosX` is in the set.
    pub fn pos_x(self) -> (r: bool)
        ensures
            r == self.has(Direction::PosX),
    {
        self.get(Direction::PosX)
    }

    /// Adds or removes `PosX`; returns whether it was in the set.
    pub fn set_pos_x(&mut self, value: bool) -> (r: bool)
        ensures
            r == old(self).has(Direction::PosX),
            final(self).has(Direction::PosX) == value,
            forall|d: Direction| d != Direction::PosX ==> final(self).has(d) == old(self).has(d),
    {
        self.set(Direction::PosX, value)
    }

    /// `PosY` is in the set.
    pub fn pos_y(self) -> (r: bool)
        ensures
            r == self.has(Direction::PosY),
    {
        self.get(Direction::PosY)
    }

    /// Adds or removes `PosY`; returns whether it was in the set.
    pub fn set_pos_y(&mut self, value: bool) -> (r: bool)
        ensures
            r == old(self).has(Direction::PosY),
            final(self).has(Direction::PosY) == value,
            forall|d: Direction| d != Direction::PosY ==> final(self).has(d) == old(self).has(d),
    {
        self.set(Direction::PosY, value)
    }

    /// `PosZ` is in the set.
    pub fn pos_z(self) -> (r: bool)
        ensures
            r == self.has(Direction::PosZ),
    {
        self.get(Direction::PosZ)
    }

    /// Adds or removes `PosZ`; returns whether it was in the set.
    pub fn set_pos_z(&mut self, value: bool) -> (r: bool)
        ensures
            r == old(self).has(Direction::PosZ),
            final(self).has(Direction::PosZ) == value,
            forall|d: Direction| d != Direction::PosZ ==> final(self).has(d) == old(self).has(d),
    {
        self.set(Direction::PosZ, value)
    }

    /// `NegX` is in the set.
    pub fn neg_x(self) -> (r: bool)
        ensures
            r == self.has(Direction::NegX),
    {
        self.get(Direction::NegX)
    }

    /// Adds or removes `NegX`; returns whether it was in the set.
    pub fn set_neg_x(&mut self, value: bool) -> (r: bool)
        ensures
            r == old(self).has(Direction::NegX),
            final(self).has(Direction::NegX) == value,
            forall|d: Direction| d != Direction::NegX ==> final(self).has(d) == old(self).has(d),
    {
        self.set(Direction::NegX, value)
    }

    /// `NegY` is in the set.
    pub fn neg_y(self) -> (r: bool)
        ensures
            r == self.has(Direction::NegY),
    {
        self.get(Direction::NegY)
    }

    /// Adds or removes `NegY`; returns whether it was in the set.
    pub fn set_neg_y(&mut self, value: bool) -> (r: bool)
        ensures
            r == old(self).has(Direction::NegY),
            final(self).has(Direction::NegY) == value,
            forall|d: Direction| d != Direction::NegY ==> final(self).has(d) == old(self).has(d),
    {
        self.set(Direction::NegY, value)
    }

    /// `NegZ` is in the set.
    pub fn neg_z(self) -> (r: bool)
        ensures
            r == self.has(Direction::NegZ),
    {
        self.get(Direction::NegZ)
    }

    /// Adds or removes `NegZ`; returns whether it was in the set.
    pub fn set_neg_z(&mut self, value: bool) -> (r: bool)
        ensures
            r == old(self).has(Direction::NegZ),
            final(self).has(Direction::NegZ) == value,
            forall|d: Direction| d != Direction::NegZ ==> final(self).has(d) == old(self).has(d),
    {
        self.set(Direction::NegZ, value)
    }

    /// Removes every face.
    pub fn reset(&mut self)
        ensures
            final(self).value() == 0,
    {
        self.0 = 0;
    }

    /// Some bit is set.
    pub fn any(self) -> (r: bool)
        ensures
            r == (self.value() != 0),
    {
        self.0 != 0
    }

    /// `PosX` or `NegX` is in the set.
    pub fn x_or(self) -> (r: bool)
        ensures
            r == (self.has(Direction::PosX) || self.has(Direction::NegX)),
    {
        self.get(Direction::PosX) || self.get(Direction::NegX)
    }

    /// `PosX` and `NegX` are in the set.
    pub fn x_and(self) -> (r: bool)
        ensures
            r == (self.has(Direction::PosX) && self.has(Direction::NegX)),
    {
        self.get(Direction::PosX) && self.get(Direction::NegX)
    }

    /// Exactly one of `PosX` and `NegX` is in the set.
    pub fn x_xor(self) -> (r: bool)
        ensures
            r == (self.has(Direction::PosX) != self.has(Direction::NegX)),
    {
        self.get(Direction::PosX) != self.get(Direction::NegX)
    }

    /// `PosY` or `NegY` is in the set.
    pub fn y_or(self) -> (r: bool)
        ensures
            r == (self.has(Direction::PosY) || self.has(Direction::NegY)),
    {
        self.get(Direction::PosY) || self.get(Direction::NegY)
    }

    /// `PosY` and `NegY` are in the set.
    pub fn y_and(self) -> (r: bool)
        ensures
            r == (self.has(Direction::PosY) && self.has(Direction::NegY)),
    {
        self.get(Direction::PosY) && self.get(Direction::NegY)
    }

    /// Exactly one of `PosY` and `NegY` is in the set.
    pub fn y_xor(self) -> (r: bool)
        ensures
            r == (self.has(Direction::PosY) != self.has(Direction::NegY)),
    {
        self.get(Direction::PosY) != self.get(Direction::NegY)
    }

    /// `PosZ` or `NegZ` is in the set.
    pub fn z_or(self) -> (r: bool)
        ensures
            r == (self.has(Direction::PosZ) || self.has(Direction::NegZ)),
    {
        self.get(Direction::PosZ) || self.get(Direction::NegZ)
    }

    /// `PosZ` and `NegZ` are in the set.
    pub fn z_and(self) -> (r: bool)
        ensures
            r == (self.has(Direction::PosZ) && self.has(Direction::NegZ)),
    {
        self.get(Direction::PosZ) && self.get(Direction::NegZ)
    }

    /// Exactly one of `PosZ` and `NegZ` is in the set.
    pub fn z_xor(self) -> (r: bool)
        ensures
            r == (self.has(Direction::PosZ) != self.has(Direction::NegZ)),
    {
        self.get(Direction::PosZ) != self.get(Direction::NegZ)
    }

    /// All six faces and no other bit.
    pub fn all(self) -> (r: bool)
        ensures
            r == (self.value() == 0b111111),
    {
        self.0 == 0b111111
    }

    /// No bit is set.
    pub fn none(self) -> (r: bool)
        ensures
            r == (self.value() == 0),
    {
        self.0 == 0
    }

    /// The packed bits.
    pub fn bits(self) -> (r: u8)
        ensures
            r == self.value(),
    {
        self.0
    }

    /// The set whose bits are the low six bits of `bits`.
    pub fn from_bits(bits: u8) -> (r: Self)
        ensures
            r.value() == bits & 0b111111u8,
    {
        Self(bits & 0b111111)
    }
}

/// Setting or clearing a bit below 6 keeps the two high bits.
proof fn lemma_high_bits_kept(v: u8, i: u8)
    requires
        i < 6,
    ensures
        (v | (1u8 << i)) & !0b111111u8 == v & !0b111111u8,
        (v & !(1u8 << i)) & !0b111111u8 == v & !0b111111u8,
{
    assert((v | (1u8 << i)) & !0b111111u8 == v & !0b111111u8
        && (v & !(1u8 << i)) & !0b111111u8 == v & !0b111111u8) by (bit_vector)
        requires
            i < 6,
    ;
}

/// The names joined by `|`.
pub open spec fn joined(names: Seq<Seq<char>>) -> Seq<char>
    decreases names.len(),
{
    if names.len() == 0 {
        Seq::empty()
    } else if names.len() == 1 {
        names[0]
    } else {
        joined(names.drop_last()) + "|"@ + names.last()
    }
}

/// `names` with `name` added when `on`.
pub open spec fn push_if(names: Seq<Seq<char>>, on: bool, name: Seq<char>) -> Seq<Seq<char>> {
    if on {
        names.push(name)
    } else {
        names
    }
}

/// The names of the faces in the set, in the order `PosX`, `PosY`, `PosZ`,
/// `NegX`, `NegY`, `NegZ`.
pub open spec fn face_names(f: FaceFlags) -> Seq<Seq<char>> {
    let n0 = push_if(Seq::empty(), f.has(Direction::PosX), "PosX"@);
    let n1 = push_if(n0, f.has(Direction::PosY), "PosY"@);
    let n2 = push_if(n1, f.has(Direction::PosZ), "PosZ"@);
    let n3 = push_if(n2, f.has(Direction::NegX), "NegX"@);
    let n4 = push_if(n3, f.has(Direction::NegY), "NegY"@);
    push_if(n4, f.has(Direction::NegZ), "NegZ"@)
}

/// Appends `name` to `text`, after a `|` when `sep`; `text` is `prefix`
/// and the names so far, joined.
pub(crate) fn append_name(text: &mut String, sep: bool, name: &str, prefix: Ghost<Seq<char>>, names: Ghost<Seq<Seq<char>>>)
    requires
        old(text)@ == prefix@ + joined(names@),
        sep == (names@.len() > 0),
    ensures
        final(text)@ == prefix@ + joined(names@.push(name@)),
{
    let ghost pre = prefix@;
    let ghost n = names@.push(name@);
    assert(n.drop_last() =~= names@);
    if sep {
        text.append("|");
        text.append(name);
        assert(pre + joined(names@) + "|"@ + name@ =~= pre + (joined(names@) + "|"@ + name@));
    } else {
        text.append(name);
        assert(joined(n) == name@);
        assert(joined(names@) =~= Seq::empty());
    }
}

impl FaceFlags {
    /// The set written as `FaceFlags(` and the names of its faces joined by
    /// `|`, then `)`.
    pub fn to_string(&self) -> (r: String)
        ensures
            r@ == "FaceFlags("@ + joined(face_names(*self)) + ")"@,
    {
        let mut text = String::from_str("FaceFlags(");
        let ghost mut names: Seq<Seq<char>> = Seq::empty();
        let mut sep = false;
        assert(text@ =~= "FaceFlags("@ + joined(names));
        if self.pos_x() {
            append_name(&mut text, sep, "PosX", Ghost("FaceFlags("@), Ghost(names));
            proof { names = names.push("PosX"@); }
            sep = true;
        }
        if self.pos_y() {
            append_name(&mut text, sep, "PosY", Ghost("FaceFlags("@), Ghost(names));
            proof { names = names.push("PosY"@); }
            sep = true;
        }
        if self.pos_z() {
            append_name(&mut text, sep, "PosZ", Ghost("FaceFlags("@), Ghost(names));
            proof { names = names.push("PosZ"@); }
            sep = true;
        }
        if self.neg_x() {
            append_name(&mut text, sep, "NegX", Ghost("FaceFlags("@), Ghost(names));
            proof { names = names.push("NegX"@); }
            sep = true;
        }
        if self.neg_y() {
            append_name(&mut text, sep, "NegY", Ghost("FaceFlags("@), Ghost(names));
            proof { names = names.push("NegY"@); }
            sep = true;
        }
        if self.neg_z() {
            append_name(&mut text, sep, "NegZ", Ghost("FaceFlags("@), Ghost(names));
            proof { names = names.push("NegZ"@); }
        }
        assert(names == face_names(*self));
        text.append(")");
        text
    }
}

impl core::ops::BitOr<FaceFlags> for FaceFlags {
    type Output = FaceFlags;

    /// The faces of either set.
    fn bitor(self, rhs: FaceFlags) -> (r: FaceFlags) {
        FaceFlags(self.0 | rhs.0)
    }
}

impl vstd::std_specs::ops::BitOrSpecImpl<FaceFlags> for FaceFlags {
    open spec fn obeys_bitor_spec() -> bool {
        true
    }

    open spec fn bitor_req(self, rhs: FaceFlags) -> bool {
        true
    }

    open spec fn bitor_spec(self, rhs: FaceFlags) -> FaceFlags {
        FaceFlags(self.0 | rhs.0)
    }
}

impl core::ops::BitAnd<FaceFlags> for FaceFlags {
    type Output = FaceFlags;

    /// The faces of both sets.
    fn bitand(self, rhs: FaceFlags) -> (r: FaceFlags) {
        FaceFlags(self.0 & rhs.0)
    }
}

impl vstd::std_specs::ops::BitAndSpecImpl<FaceFlags> for FaceFlags {
    open spec fn obeys_bitand_spec() -> bool {
        true
    }

    open spec fn bitand_req(self, rhs: FaceFlags) -> bool {
        true
    }

    open spec fn bitand_spec(self, rhs: FaceFlags) -> FaceFlags {
        FaceFlags(self.0 & rhs.0)
    }
}

impl core::ops::Not for FaceFlags {
    type Output = FaceFlags;

    /// The faces not in the set.
    fn not(self) -> (r: FaceFlags) {
        FaceFlags(!self.0 & 0b111111)
    }
}

impl vstd::std_specs::ops::NotSpecImpl for FaceFlags {
    open spec fn obeys_not_spec() -> bool {
        true
    }

    open spec fn not_req(self) -> bool {
        true
    }

    open spec fn not_spec(self) -> FaceFlags {
        FaceFlags(!self.0 & 0b111111)
    }
}

/// `|`, `&` and `!` on face sets are those of their bits (`!` keeps the six
/// face bits only).
pub proof fn lemma_face_set_ops(a: FaceFlags, b: FaceFlags)
    ensures
        a.bitor_spec(b).value() == a.value() | b.value(),
        a.bitand_spec(b).value() == a.value() & b.value(),
        a.not_spec().value() == !a.value() & 0b111111u8,
{
}

} // verus!
