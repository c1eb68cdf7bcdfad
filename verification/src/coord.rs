//! Block coordinates in the world.
use vstd::prelude::*;
use crate::chunkcoord::ChunkCoord;
use crate::direction::{Cardinal, Direction};

verus! {

/// A block position.
#[derive(Debug, Default, Clone, Copy, PartialEq, Eq, PartialOrd, Ord, Hash, Structural)]
pub struct Coord {
    pub x: i32,
    pub y: i32,
    pub z: i32,
}

/// Division rounding toward zero (what `/` does on Rust integers).
pub open spec fn trunc_div(a: int, b: int) -> int {
    if a >= 0 {
        a / b
    } else {
        -((-a) / b)
    }
}

/// The unit step `(dx, dy, dz)` toward the face `d`.
pub open spec fn direction_step(d: Direction) -> (int, int, int) {
    match d {
        Direction::NegX => (-1, 0, 0),
        Direction::NegY => (0, -1, 0),
        Direction::NegZ => (0, 0, -1),
        Direction::PosX => (1, 0, 0),
        Direction::PosY => (0, 1, 0),
        Direction::PosZ => (0, 0, 1),
    }
}

/// The unit step toward a cardinal direction (north is negative z).
pub open spec fn cardinal_step(c: Cardinal) -> (int, int, int) {
    match c {
        Cardinal::West => (-1, 0, 0),
        Cardinal::East => (1, 0, 0),
        Cardinal::North => (0, 0, -1),
        Cardinal::South => (0, 0, 1),
    }
}

/// `c` moved one step toward `d`, when that stays within `i32`.
pub open spec fn spec_neighbor(c: Coord, d: Direction) -> Option<Coord> {
    let (dx, dy, dz) = direction_step(d);
    let x = c.x + dx;
    let y = c.y + dy;
    let z = c.z + dz;
    if i32::MIN <= x <= i32::MAX && i32::MIN <= y <= i32::MAX && i32::MIN <= z <= i32::MAX {
        Some(Coord { x: x as i32, y: y as i32, z: z as i32 })
    } else {
        None
    }
}

/// The neighbors of `c` in the directions `dirs`, in that order, leaving
/// out those past the range of `i32`.
pub open spec fn neighbor_list(c: Coord, dirs: Seq<Direction>) -> Seq<(Direction, Coord)>
    decreases dirs.len(),
{
    if dirs.len() == 0 {
        Seq::empty()
    } else {
        let rest = neighbor_list(c, dirs.drop_last());
        match spec_neighbor(c, dirs.last()) {
            Some(n) => rest.push((dirs.last(), n)),
            None => rest,
        }
    }
}

/// The six directions in the order of [`Direction::iter`].
pub open spec fn all_directions() -> Seq<Direction> {
    seq![
        Direction::NegX,
        Direction::NegY,
        Direction::NegZ,
        Direction::PosX,
        Direction::PosY,
        Direction::PosZ,
    ]
}

/// The unit coordinate of a direction.
pub open spec fn spec_direction_coord(d: Direction) -> Coord {
    let (dx, dy, dz) = direction_step(d);
    Coord { x: dx as i32, y: dy as i32, z: dz as i32 }
}

/// The unit coordinate of a cardinal direction.
pub open spec fn spec_cardinal_coord(c: Cardinal) -> Coord {
    let (dx, dy, dz) = cardinal_step(c);
    Coord { x: dx as i32, y: dy as i32, z: dz as i32 }
}

/// Division by 16, rounding toward zero.
fn div16(a: i32) -> (r: i32)
    ensures
        r == trunc_div(a as int, 16),
{
    if a >= 0 {
        a / 16
    } else {
        let n: i64 = -(a as i64);
        let q: i64 = n / 16;
        (-q) as i32
    }
}

/// Euclidean remainders do not depend on the sign of the divisor.
proof fn lemma_mod_neg_divisor(a: int, b: int)
    requires
        b < 0,
    ensures
        a % b == a % (-b),
{
    let m = -b;
    let r = a % m;
    let q = a / m;
    vstd::arithmetic::div_mod::lemma_fundamental_div_mod(a, m);

    assert(a == (-q) * b + r) by (nonlinear_arith)
        requires
            a == m * q + r,
            m == -b,
    ;
    vstd::arithmetic::div_mod::lemma_fundamental_div_mod(a, b);
    let r2 = a % b;
    let q2 = a / b;
    assert(0 <= r2 < m);
    assert(a == b * q2 + r2);
    assert(r2 == r) by (nonlinear_arith)
        requires
            a == (-q) * b + r,
            a == b * q2 + r2,
            0 <= r < m,
            0 <= r2 < m,
            m == -b,
            m > 0,
    ;
}

impl Coord {
    pub fn new(x: i32, y: i32, z: i32) -> (r: Self)
        ensures
            r == (Coord { x, y, z }),
    {
        Self { x, y, z }
    }

    /// The coordinate with all three components equal to `splat`.
    pub fn splat(splat: i32) -> (r: Self)
        ensures
            r == (Coord { x: splat, y: splat, z: splat }),
    {
        Self::new(splat, splat, splat)
    }

    /// The six neighbors with their directions, in the order of
    /// [`Direction::iter`], leaving out those past the range of `i32`.
    pub fn neighbors(self) -> (r: Vec<(Direction, Coord)>)
        ensures
            r@ == neighbor_list(self, all_directions()),
    {
        let dirs = Direction::iter();
        let mut result: Vec<(Direction, Coord)> = Vec::new();
        let mut i: usize = 0;
        while i < dirs.len()
            invariant
                i <= 6,
                dirs@ == all_directions(),
                result@ == neighbor_list(self, all_directions().take(i as int)),
            decreases 6 - i,
        {
            let dir = dirs[i];
            let step = Coord::from(dir);
            proof {
                assert(all_directions().take(i + 1).drop_last() =~= all_directions().take(i as int));
            }
            match (self.x.checked_add(step.x), self.y.checked_add(step.y), self.z.checked_add(step.z)) {
                (Some(x), Some(y), Some(z)) => {
                    result.push((dir, Coord::new(x, y, z)));
                },
                _ => {},
            }
            i = i + 1;
        }
        proof {
            assert(all_directions().take(6) =~= all_directions());
        }
        result
    }

    /// The chunk that holds the block, each component divided by 16
    /// rounding toward zero.
    pub fn chunk_coord(self) -> (r: ChunkCoord)
        ensures
            r.x == trunc_div(self.x as int, 16),
            r.z == trunc_div(self.z as int, 16),
    {
        ChunkCoord::new(div16(self.x), div16(self.z))
    }

    /// The section that holds the block, each component divided by 16
    /// rounding toward zero.
    pub fn section_coord(self) -> (r: Coord)
        ensures
            r.x == trunc_div(self.x as int, 16),
            r.y == trunc_div(self.y as int, 16),
            r.z == trunc_div(self.z as int, 16),
    {
        Self::new(div16(self.x), div16(self.y), div16(self.z))
    }

    /// Each component's least non-negative remainder modulo `rhs`.
    pub fn rem_euclid(self, rhs: i32) -> (r: Self)
        requires
            rhs != 0,
            rhs == -1 ==> self.x != i32::MIN && self.y != i32::MIN && self.z != i32::MIN,
        ensures
            r.x == (self.x as int) % (rhs as int),
            r.y == (self.y as int) % (rhs as int),
            r.z == (self.z as int) % (rhs as int),
    {
        Self::new(rem_euclid_i32(self.x, rhs), rem_euclid_i32(self.y, rhs), rem_euclid_i32(self.z, rhs))
    }
}

/// The least non-negative remainder of `a` modulo `b`.
fn rem_euclid_i32(a: i32, b: i32) -> (r: i32)
    requires
        b != 0,
        b == -1 ==> a != i32::MIN,
    ensures
        r == (a as int) % (b as int),
{
    let m: i64 = if b < 0 { -(b as i64) } else { b as i64 };
    proof {
        if b < 0 {
            lemma_mod_neg_divisor(a as int, b as int);
        }
    }
    if a >= 0 {
        ((a as i64) % m) as i32
    } else {
        let n: i64 = -(a as i64);
        let t: i64 = n % m;
        proof {
            vstd::arithmetic::div_mod::lemma_fundamental_div_mod(n as int, m as int);
            vstd::arithmetic::div_mod::lemma_mod_pos_bound(n as int, m as int);
            let q = (n as int) / (m as int);
            if t == 0 {
                assert((a as int) == (-q) * m + 0) by (nonlinear_arith)
                    requires
                        n == m * q + t,
                        t == 0,
                        a == -n,
                ;
                vstd::arithmetic::div_mod::lemma_fundamental_div_mod_converse(a as int, m as int, -q, 0);
            } else {
                assert((a as int) == (-q - 1) * m + (m - t)) by (nonlinear_arith)
                    requires
                        n == m * q + t,
                        a == -n,
                ;
                vstd::arithmetic::div_mod::lemma_fundamental_div_mod_converse(a as int, m as int, -q - 1, m - t);
            }
        }
        if t == 0 {
            0
        } else {
            (m - t) as i32
        }
    }
}

impl From<Direction> for Coord {
    fn from(value: Direction) -> (r: Self) {
        match value {
            Direction::NegX => Coord::new(-1, 0, 0),
            Direction::NegY => Coord::new(0, -1, 0),
            Direction::NegZ => Coord::new(0, 0, -1),
            Direction::PosX => Coord::new(1, 0, 0),
            Direction::PosY => Coord::new(0, 1, 0),
            Direction::PosZ => Coord::new(0, 0, 1),
        }
    }
}

impl vstd::std_specs::convert::FromSpecImpl<Direction> for Coord {
    open spec fn obeys_from_spec() -> bool {
        true
    }

    open spec fn from_spec(v: Direction) -> Coord {
        spec_direction_coord(v)
    }
}

impl From<Cardinal> for Coord {
    fn from(value: Cardinal) -> (r: Self) {
        match value {
            Cardinal::West => Coord::new(-1, 0, 0),
            Cardinal::East => Coord::new(1, 0, 0),
            Cardinal::North => Coord::new(0, 0, -1),
            Cardinal::South => Coord::new(0, 0, 1),
        }
    }
}

impl vstd::std_specs::convert::FromSpecImpl<Cardinal> for Coord {
    open spec fn obeys_from_spec() -> bool {
        true
    }

    open spec fn from_spec(v: Cardinal) -> Coord {
        spec_cardinal_coord(v)
    }
}

impl From<(i32, i32, i32)> for Coord {
    fn from(value: (i32, i32, i32)) -> (r: Self) {
        Coord::new(value.0, value.1, value.2)
    }
}

impl vstd::std_specs::convert::FromSpecImpl<(i32, i32, i32)> for Coord {
    open spec fn obeys_from_spec() -> bool {
        true
    }

    open spec fn from_spec(v: (i32, i32, i32)) -> Coord {
        Coord { x: v.0, y: v.1, z: v.2 }
    }
}

/// The three components fit in `i32`.
pub open spec fn fits_i32(x: int, y: int, z: int) -> bool {
    i32::MIN <= x <= i32::MAX && i32::MIN <= y <= i32::MAX && i32::MIN <= z <= i32::MAX
}

/// The coordinate made of three components that fit in `i32`.
pub open spec fn coord_of(x: int, y: int, z: int) -> Coord {
    Coord { x: x as i32, y: y as i32, z: z as i32 }
}

impl core::ops::Add<Coord> for Coord {
    type Output = Coord;

    fn add(self, rhs: Coord) -> (r: Coord) {
        Coord { x: self.x + rhs.x, y: self.y + rhs.y, z: self.z + rhs.z }
    }
}

impl vstd::std_specs::ops::AddSpecImpl<Coord> for Coord {
    open spec fn obeys_add_spec() -> bool {
        true
    }

    open spec fn add_req(self, rhs: Coord) -> bool {
        fits_i32(self.x + rhs.x, self.y + rhs.y, self.z + rhs.z)
    }

    open spec fn add_spec(self, rhs: Coord) -> Coord {
        coord_of(self.x + rhs.x, self.y + rhs.y, self.z + rhs.z)
    }
}

/// The magnitude of `a`.
pub open spec fn abs_int(a: int) -> int {
    if a >= 0 {
        a
    } else {
        -a
    }
}

/// What `/` gives on Rust integers: the quotient rounded toward zero.
pub open spec fn rust_div(a: int, b: int) -> int {
    let q = abs_int(a) / abs_int(b);
    if (a >= 0) == (b > 0) {
        q
    } else {
        -q
    }
}

/// What `%` gives on Rust integers: the remainder with the sign of `a`.
pub open spec fn rust_rem(a: int, b: int) -> int {
    a - b * rust_div(a, b)
}

/// `a / b` as Rust computes it on `i32`.
pub(crate) fn div_i32(a: i32, b: i32) -> (r: (i32, i32))
    requires
        b != 0,
        !(a == i32::MIN && b == -1),
    ensures
        r.0 == rust_div(a as int, b as int),
        r.1 == rust_rem(a as int, b as int),
{
    let wa: i64 = a as i64;
    let wb: i64 = b as i64;
    let qa: i64 = if wa >= 0 { wa } else { -wa };
    let qb: i64 = if wb >= 0 { wb } else { -wb };
    let q: i64 = qa / qb;
    let ghost m = qa % qb;
    proof {
        vstd::arithmetic::div_mod::lemma_fundamental_div_mod(qa as int, qb as int);
        assert(0 <= q <= qa && qb * q <= qa) by (nonlinear_arith)
            requires
                qa == qb * q + m,
                0 <= m < qb,
                qb >= 1,
                qa >= 0,
        ;
        assert(qb >= 2 ==> 2 * q <= qa) by (nonlinear_arith)
            requires
                qa == qb * q + m,
                0 <= m,
                q >= 0,
        ;
    }
    let d: i64 = if (wa >= 0) == (wb > 0) { q } else { -q };
    proof {
        if wb > 0 {
            assert(wb * d == qb * d) by (nonlinear_arith)
                requires
                    wb == qb,
            ;
        } else {
            assert(wb * d == qb * (-d)) by (nonlinear_arith)
                requires
                    wb == -qb,
            ;
        }
        assert(qb * (-q) == -(qb * q)) by (nonlinear_arith);
        assert(wa >= 0 ==> wb * d == qb * q);
        assert(wa < 0 ==> wb * d == -(qb * q));
    }
    let rem: i64 = wa - wb * d;
    (d as i32, rem as i32)
}

impl core::ops::Sub<Coord> for Coord {
    type Output = Coord;

    fn sub(self, rhs: Coord) -> (r: Coord) {
        Coord { x: self.x - rhs.x, y: self.y - rhs.y, z: self.z - rhs.z }
    }
}

impl vstd::std_specs::ops::SubSpecImpl<Coord> for Coord {
    open spec fn obeys_sub_spec() -> bool {
        true
    }

    open spec fn sub_req(self, rhs: Coord) -> bool {
        fits_i32(self.x - rhs.x, self.y - rhs.y, self.z - rhs.z)
    }

    open spec fn sub_spec(self, rhs: Coord) -> Coord {
        coord_of(self.x - rhs.x, self.y - rhs.y, self.z - rhs.z)
    }
}

impl core::ops::Mul<i32> for Coord {
    type Output = Coord;

    fn mul(self, rhs: i32) -> (r: Coord) {
        Coord { x: self.x * rhs, y: self.y * rhs, z: self.z * rhs }
    }
}

impl vstd::std_specs::ops::MulSpecImpl<i32> for Coord {
    open spec fn obeys_mul_spec() -> bool {
        true
    }

    open spec fn mul_req(self, rhs: i32) -> bool {
        fits_i32(self.x * rhs, self.y * rhs, self.z * rhs)
    }

    open spec fn mul_spec(self, rhs: i32) -> Coord {
        coord_of(self.x * rhs, self.y * rhs, self.z * rhs)
    }
}

impl core::ops::Div<i32> for Coord {
    type Output = Coord;

    fn div(self, rhs: i32) -> (r: Coord) {
        let (x, _) = div_i32(self.x, rhs);
        let (y, _) = div_i32(self.y, rhs);
        let (z, _) = div_i32(self.z, rhs);
        Coord { x, y, z }
    }
}

impl vstd::std_specs::ops::DivSpecImpl<i32> for Coord {
    open spec fn obeys_div_spec() -> bool {
        true
    }

    open spec fn div_req(self, rhs: i32) -> bool {
        rhs != 0 && (rhs == -1 ==> self.x != i32::MIN && self.y != i32::MIN && self.z != i32::MIN)
    }

    open spec fn div_spec(self, rhs: i32) -> Coord {
        coord_of(rust_div(self.x as int, rhs as int), rust_div(self.y as int, rhs as int), rust_div(self.z as int, rhs as int))
    }
}

impl core::ops::Rem<i32> for Coord {
    type Output = Coord;

    fn rem(self, rhs: i32) -> (r: Coord) {
        let (_, x) = div_i32(self.x, rhs);
        let (_, y) = div_i32(self.y, rhs);
        let (_, z) = div_i32(self.z, rhs);
        Coord { x, y, z }
    }
}

impl vstd::std_specs::ops::RemSpecImpl<i32> for Coord {
    open spec fn obeys_rem_spec() -> bool {
        true
    }

    open spec fn rem_req(self, rhs: i32) -> bool {
        rhs != 0 && (rhs == -1 ==> self.x != i32::MIN && self.y != i32::MIN && self.z != i32::MIN)
    }

    open spec fn rem_spec(self, rhs: i32) -> Coord {
        coord_of(rust_rem(self.x as int, rhs as int), rust_rem(self.y as int, rhs as int), rust_rem(self.z as int, rhs as int))
    }
}

impl core::ops::Add<Direction> for Coord {
    type Output = Coord;

    fn add(self, rhs: Direction) -> (r: Coord) {
        match rhs {
            Direction::NegX => Coord::new(self.x - 1, self.y, self.z),
            Direction::NegY => Coord::new(self.x, self.y - 1, self.z),
            Direction::NegZ => Coord::new(self.x, self.y, self.z - 1),
            Direction::PosX => Coord::new(self.x + 1, self.y, self.z),
            Direction::PosY => Coord::new(self.x, self.y + 1, self.z),
            Direction::PosZ => Coord::new(self.x, self.y, self.z + 1),
        }
    }
}

impl vstd::std_specs::ops::AddSpecImpl<Direction> for Coord {
    open spec fn obeys_add_spec() -> bool {
        true
    }

    open spec fn add_req(self, rhs: Direction) -> bool {
        spec_neighbor(self, rhs) is Some
    }

    open spec fn add_spec(self, rhs: Direction) -> Coord {
        spec_neighbor(self, rhs).unwrap()
    }
}

impl core::ops::Add<Cardinal> for Coord {
    type Output = Coord;

    fn add(self, rhs: Cardinal) -> (r: Coord) {
        match rhs {
            Cardinal::West => Coord::new(self.x - 1, self.y, self.z),
            Cardinal::East => Coord::new(self.x + 1, self.y, self.z),
            Cardinal::North => Coord::new(self.x, self.y, self.z - 1),
            Cardinal::South => Coord::new(self.x, self.y, self.z + 1),
        }
    }
}

impl vstd::std_specs::ops::AddSpecImpl<Cardinal> for Coord {
    open spec fn obeys_add_spec() -> bool {
        true
    }

    open spec fn add_req(self, rhs: Cardinal) -> bool {
        let (dx, dy, dz) = cardinal_step(rhs);
        fits_i32(self.x + dx, self.y + dy, self.z + dz)
    }

    open spec fn add_spec(self, rhs: Cardinal) -> Coord {
        let (dx, dy, dz) = cardinal_step(rhs);
        coord_of(self.x + dx, self.y + dy, self.z + dz)
    }
}

impl From<Coord> for (i32, i32, i32) {
    fn from(value: Coord) -> (r: Self) {
        (value.x, value.y, value.z)
    }
}

impl vstd::std_specs::convert::FromSpecImpl<Coord> for (i32, i32, i32) {
    open spec fn obeys_from_spec() -> bool {
        true
    }

    open spec fn from_spec(v: Coord) -> (i32, i32, i32) {
        (v.x, v.y, v.z)
    }
}

} // verus!
