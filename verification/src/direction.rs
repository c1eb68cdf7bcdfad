//! The six face directions of a cube and the four horizontal cardinals.
use vstd::prelude::*;
use vstd::string::*;
use crate::bits::lemma_u8_shifts;

verus! {

/// One of the six faces of a cube.
#[derive(Debug, Clone, Copy, PartialEq, Eq, Hash, Structural)]
pub enum Direction {
    NegX,
    NegY,
    NegZ,
    PosX,
    PosY,
    PosZ,
}

/// One of the four horizontal directions.
#[derive(Debug, Clone, Copy, PartialEq, Eq, Hash, Structural)]
pub enum Cardinal {
    /// -X
    West,
    /// -Z
    North,
    /// +X
    East,
    /// +Z
    South,
}

/// The discriminant of a direction: `PosY` is 0 so that the default
/// rotation points up.
pub open spec fn direction_index(d: Direction) -> u8 {
    match d {
        Direction::PosY => 0,
        Direction::PosX => 1,
        Direction::PosZ => 2,
        Direction::NegY => 3,
        Direction::NegX => 4,
        Direction::NegZ => 5,
    }
}

/// The discriminant of a cardinal, counting clockwise from West.
pub open spec fn cardinal_index(c: Cardinal) -> int {
    match c {
        Cardinal::West => 0,
        Cardinal::North => 1,
        Cardinal::East => 2,
        Cardinal::South => 3,
    }
}

/// The cardinal with the given index in West, North, East, South order.
pub open spec fn cardinal_from_index(i: int) -> Cardinal {
    if i == 0 {
        Cardinal::West
    } else if i == 1 {
        Cardinal::North
    } else if i == 2 {
        Cardinal::East
    } else {
        Cardinal::South
    }
}

/// The opposite direction.
pub open spec fn spec_invert(d: Direction) -> Direction {
    match d {
        Direction::NegX => Direction::PosX,
        Direction::NegY => Direction::PosY,
        Direction::NegZ => Direction::PosZ,
        Direction::PosX => Direction::NegX,
        Direction::PosY => Direction::NegY,
        Direction::PosZ => Direction::NegZ,
    }
}

/// The cardinal rotated `r` quarter turns clockwise.
pub open spec fn spec_cardinal_rotate(c: Cardinal, r: int) -> Cardinal {
    cardinal_from_index((cardinal_index(c) + r) % 4)
}

impl Cardinal {
    pub const FORWARD: Cardinal = Cardinal::North;
    pub const BACKWARD: Cardinal = Cardinal::South;
    pub const RIGHT: Cardinal = Cardinal::East;
    pub const LEFT: Cardinal = Cardinal::West;

    /// Rotates by `rotation` quarter turns (clockwise for positive values).
    pub fn rotate(self, rotation: i32) -> (r: Cardinal)
        requires
            cardinal_index(self) + rotation <= i32::MAX,
        ensures
            r == spec_cardinal_rotate(self, rotation as int),
    {
        let index: i32 = match self {
            Cardinal::West => 0,
            Cardinal::North => 1,
            Cardinal::East => 2,
            Cardinal::South => 3,
        };
        let sum: i32 = index + rotation;
        let m: i32 = sum % 4;
        let rot_index: i32 = if m < 0 { m + 4 } else { m };
        assert(rot_index == (cardinal_index(self) + rotation) % 4);
        if rot_index == 0 {
            Cardinal::West
        } else if rot_index == 1 {
            Cardinal::North
        } else if rot_index == 2 {
            Cardinal::East
        } else {
            Cardinal::South
        }
    }
}

impl Cardinal {
    /// The opposite cardinal.
    pub fn invert(self) -> (r: Cardinal)
        ensures
            r == spec_cardinal_rotate(self, 2),
    {
        match self {
            Cardinal::West => Cardinal::East,
            Cardinal::East => Cardinal::West,
            Cardinal::North => Cardinal::South,
            Cardinal::South => Cardinal::North,
        }
    }

    /// The single bit that stands for this cardinal in a 4-bit mask.
    pub fn bit(self) -> (r: u8)
        ensures
            r == 1u8 << (cardinal_index(self) as u8),
    {
        proof {
            lemma_u8_shifts();
        }
        match self {
            Cardinal::West => 1,
            Cardinal::North => 2,
            Cardinal::East => 4,
            Cardinal::South => 8,
        }
    }

    /// All cardinals, ordered West, East, North, South (opposites grouped).
    pub fn iter() -> (r: Vec<Cardinal>)
        ensures
            r@ == seq![Cardinal::West, Cardinal::East, Cardinal::North, Cardinal::South],
    {
        vec![Cardinal::West, Cardinal::East, Cardinal::North, Cardinal::South]
    }
}

/// The face whose normal points to the top of `d`'s UV plane.
pub open spec fn spec_up(d: Direction) -> Direction {
    match d {
        Direction::NegX => Direction::PosY,
        Direction::NegY => Direction::PosZ,
        Direction::NegZ => Direction::PosY,
        Direction::PosX => Direction::PosY,
        Direction::PosY => Direction::NegZ,
        Direction::PosZ => Direction::PosY,
    }
}

/// The face whose normal points to the right of `d`'s UV plane.
pub open spec fn spec_right(d: Direction) -> Direction {
    match d {
        Direction::NegX => Direction::PosZ,
        Direction::NegY => Direction::PosX,
        Direction::NegZ => Direction::NegX,
        Direction::PosX => Direction::NegZ,
        Direction::PosY => Direction::PosX,
        Direction::PosZ => Direction::PosX,
    }
}

impl Direction {
    /// Mirrors the direction along the axes whose flag is set.
    pub fn flip(self, flip_x: bool, flip_y: bool, flip_z: bool) -> (r: Direction)
        ensures
            r == match self {
                Direction::NegX | Direction::PosX => if flip_x { spec_invert(self) } else { self },
                Direction::NegY | Direction::PosY => if flip_y { spec_invert(self) } else { self },
                Direction::NegZ | Direction::PosZ => if flip_z { spec_invert(self) } else { self },
            },
    {
        match self {
            Direction::NegX if flip_x => Direction::PosX,
            Direction::NegY if flip_y => Direction::PosY,
            Direction::NegZ if flip_z => Direction::PosZ,
            Direction::PosX if flip_x => Direction::NegX,
            Direction::PosY if flip_y => Direction::NegY,
            Direction::PosZ if flip_z => Direction::NegZ,
            _ => self,
        }
    }

    pub const LEFT: Direction = Direction::NegX;
    pub const DOWN: Direction = Direction::NegY;
    pub const FORWARD: Direction = Direction::NegZ;
    pub const RIGHT: Direction = Direction::PosX;
    pub const UP: Direction = Direction::PosY;
    pub const BACKWARD: Direction = Direction::PosZ;

    /// The opposite direction.
    pub fn invert(self) -> (r: Direction)
        ensures
            r == spec_invert(self),
    {
        match self {
            Direction::NegX => Direction::PosX,
            Direction::NegY => Direction::PosY,
            Direction::NegZ => Direction::PosZ,
            Direction::PosX => Direction::NegX,
            Direction::PosY => Direction::NegY,
            Direction::PosZ => Direction::NegZ,
        }
    }

    /// The single bit that stands for this direction in a 6-bit mask.
    pub fn bit(self) -> (r: u8)
        ensures
            r == 1u8 << direction_index(self),
    {
        proof {
            lemma_u8_shifts();
        }
        match self {
            Direction::PosY => 1,
            Direction::PosX => 2,
            Direction::PosZ => 4,
            Direction::NegY => 8,
            Direction::NegX => 16,
            Direction::NegZ => 32,
        }
    }

    /// All directions: NegX, NegY, NegZ, PosX, PosY, PosZ.
    pub fn iter() -> (r: Vec<Direction>)
        ensures
            r@ == seq![
                Direction::NegX,
                Direction::NegY,
                Direction::NegZ,
                Direction::PosX,
                Direction::PosY,
                Direction::PosZ,
            ],
    {
        vec![
            Direction::NegX,
            Direction::NegY,
            Direction::NegZ,
            Direction::PosX,
            Direction::PosY,
            Direction::PosZ,
        ]
    }

    /// All directions in index order: PosY, PosX, PosZ, NegY, NegX, NegZ.
    pub fn iter_index_order() -> (r: Vec<Direction>)
        ensures
            r@.len() == 6,
            forall|i: int| 0 <= i < 6 ==> direction_index(#[trigger] r@[i]) == i,
    {
        vec![
            Direction::PosY,
            Direction::PosX,
            Direction::PosZ,
            Direction::NegY,
            Direction::NegX,
            Direction::NegZ,
        ]
    }

    /// On a non-oriented cube, the face whose normal points to the top of
    /// this face's UV plane.
    pub fn up(self) -> (r: Direction)
        ensures
            r == spec_up(self),
    {
        match self {
            Direction::NegX => Direction::PosY,
            Direction::NegY => Direction::PosZ,
            Direction::NegZ => Direction::PosY,
            Direction::PosX => Direction::PosY,
            Direction::PosY => Direction::NegZ,
            Direction::PosZ => Direction::PosY,
        }
    }

    /// On a non-oriented cube, the face whose normal points to the bottom of
    /// this face's UV plane.
    pub fn down(self) -> (r: Direction)
        ensures
            r == spec_invert(spec_up(self)),
    {
        match self {
            Direction::NegX => Direction::NegY,
            Direction::NegY => Direction::NegZ,
            Direction::NegZ => Direction::NegY,
            Direction::PosX => Direction::NegY,
            Direction::PosY => Direction::PosZ,
            Direction::PosZ => Direction::NegY,
        }
    }

    /// On a non-oriented cube, the face whose normal points to the left of
    /// this face's UV plane.
    pub fn left(self) -> (r: Direction)
        ensures
            r == spec_invert(spec_right(self)),
    {
        match self {
            Direction::NegX => Direction::NegZ,
            Direction::NegY => Direction::NegX,
            Direction::NegZ => Direction::PosX,
            Direction::PosX => Direction::PosZ,
            Direction::PosY => Direction::NegX,
            Direction::PosZ => Direction::NegX,
        }
    }

    /// On a non-oriented cube, the face whose normal points to the right of
    /// this face's UV plane.
    pub fn right(self) -> (r: Direction)
        ensures
            r == spec_right(self),
    {
        match self {
            Direction::NegX => Direction::PosZ,
            Direction::NegY => Direction::PosX,
            Direction::NegZ => Direction::NegX,
            Direction::PosX => Direction::NegZ,
            Direction::PosY => Direction::PosX,
            Direction::PosZ => Direction::PosX,
        }
    }
}

/// Distinct directions have distinct discriminants, all below 6.
pub proof fn lemma_direction_index_injective(a: Direction, b: Direction)
    ensures
        (direction_index(a) == direction_index(b)) == (a == b),
        direction_index(a) < 6,
{
}

/// Inverting a direction twice gives it back, and no direction is its own
/// opposite.
pub proof fn law_invert_involution(d: Direction)
    ensures
        spec_invert(spec_invert(d)) == d,
        spec_invert(d) != d,
{
}

/// Rotating a cardinal by `a` and then by `b` is rotating it by `a + b`,
/// for any whole numbers of quarter turns; no turn and four quarter turns
/// give it back, two half turns give it back, and a quarter turn takes
/// West to North and North to East.
pub proof fn law_cardinal_rotate_compose(c: Cardinal, a: int, b: int)
    ensures
        spec_cardinal_rotate(spec_cardinal_rotate(c, a), b) == spec_cardinal_rotate(c, a + b),
        spec_cardinal_rotate(c, 0) == c,
        spec_cardinal_rotate(c, 4) == c,
        spec_cardinal_rotate(spec_cardinal_rotate(c, 2), 2) == c,
        spec_cardinal_rotate(Cardinal::West, 1) == Cardinal::North,
        spec_cardinal_rotate(Cardinal::North, 1) == Cardinal::East,
{
    let i = cardinal_index(c);
    assert(cardinal_index(cardinal_from_index((i + a) % 4)) == (i + a) % 4);
    assert(((i + a) % 4 + b) % 4 == (i + a + b) % 4) by (nonlinear_arith);
}

/// The up and right faces of a face are perpendicular to it: neither is the
/// face itself nor its opposite.
pub proof fn law_up_right_perpendicular(d: Direction)
    ensures
        spec_up(d) != d,
        spec_up(d) != spec_invert(d),
        spec_right(d) != d,
        spec_right(d) != spec_invert(d),
        spec_right(d) != spec_up(d),
        spec_right(d) != spec_invert(spec_up(d)),
{
}

/// The name of a direction.
pub open spec fn direction_name(d: Direction) -> Seq<char> {
    match d {
        Direction::NegX => "NegX"@,
        Direction::NegY => "NegY"@,
        Direction::NegZ => "NegZ"@,
        Direction::PosX => "PosX"@,
        Direction::PosY => "PosY"@,
        Direction::PosZ => "PosZ"@,
    }
}

impl Direction {
    /// The name of the direction, such as `NegX`.
    pub fn to_string(&self) -> (r: String)
        ensures
            r@ == direction_name(*self),
    {
        match self {
            Direction::NegX => String::from_str("NegX"),
            Direction::NegY => String::from_str("NegY"),
            Direction::NegZ => String::from_str("NegZ"),
            Direction::PosX => String::from_str("PosX"),
            Direction::PosY => String::from_str("PosY"),
            Direction::PosZ => String::from_str("PosZ"),
        }
    }
}

impl core::ops::Neg for Cardinal {
    type Output = Cardinal;

    fn neg(self) -> (r: Cardinal) {
        self.invert()
    }
}

impl vstd::std_specs::ops::NegSpecImpl for Cardinal {
    open spec fn obeys_neg_spec() -> bool {
        true
    }

    open spec fn neg_req(self) -> bool {
        true
    }

    open spec fn neg_spec(self) -> Cardinal {
        spec_cardinal_rotate(self, 2)
    }
}

impl core::ops::Neg for Direction {
    type Output = Direction;

    fn neg(self) -> (r: Direction) {
        self.invert()
    }
}

impl vstd::std_specs::ops::NegSpecImpl for Direction {
    open spec fn obeys_neg_spec() -> bool {
        true
    }

    open spec fn neg_req(self) -> bool {
        true
    }

    open spec fn neg_spec(self) -> Direction {
        spec_invert(self)
    }
}

} // verus!
