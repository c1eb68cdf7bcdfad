//! A value for each of the six faces of a cube.
use vstd::prelude::*;
use crate::direction::Direction;

verus! {

/// One value per face.
#[derive(Debug, Clone, Copy)]
pub struct Faces<T> {
    pub neg_x: T,
    pub neg_y: T,
    pub neg_z: T,
    pub pos_x: T,
    pub pos_y: T,
    pub pos_z: T,
}

impl<T> Faces<T> {
    /// The value of face `d`.
    pub open spec fn get_face(self, d: Direction) -> T {
        match d {
            Direction::NegX => self.neg_x,
            Direction::NegY => self.neg_y,
            Direction::NegZ => self.neg_z,
            Direction::PosX => self.pos_x,
            Direction::PosY => self.pos_y,
            Direction::PosZ => self.pos_z,
        }
    }

    /// These faces with face `d` replaced by `v`.
    pub open spec fn set_face(self, d: Direction, v: T) -> Self {
        match d {
            Direction::NegX => Faces { neg_x: v, ..self },
            Direction::NegY => Faces { neg_y: v, ..self },
            Direction::NegZ => Faces { neg_z: v, ..self },
            Direction::PosX => Faces { pos_x: v, ..self },
            Direction::PosY => Faces { pos_y: v, ..self },
            Direction::PosZ => Faces { pos_z: v, ..self },
        }
    }

    pub fn new(neg_x: T, neg_y: T, neg_z: T, pos_x: T, pos_y: T, pos_z: T) -> (r: Self)
        ensures
            r == (Faces { neg_x, neg_y, neg_z, pos_x, pos_y, pos_z }),
    {
        Self { neg_x, neg_y, neg_z, pos_x, pos_y, pos_z }
    }

    /// The value of one face.
    pub fn face(&self, direction: Direction) -> (r: &T)
        ensures
            *r == self.get_face(direction),
    {
        match direction {
            Direction::NegX => &self.neg_x,
            Direction::NegY => &self.neg_y,
            Direction::NegZ => &self.neg_z,
            Direction::PosX => &self.pos_x,
            Direction::PosY => &self.pos_y,
            Direction::PosZ => &self.pos_z,
        }
    }

    /// The value of one face, to change in place.
    pub fn face_mut(&mut self, direction: Direction) -> (r: &mut T)
        ensures
            *r == old(self).get_face(direction),
            *final(self) == old(self).set_face(direction, *final(r)),
    {
        match direction {
            Direction::NegX => &mut self.neg_x,
            Direction::NegY => &mut self.neg_y,
            Direction::NegZ => &mut self.neg_z,
            Direction::PosX => &mut self.pos_x,
            Direction::PosY => &mut self.pos_y,
            Direction::PosZ => &mut self.pos_z,
        }
    }

    /// The faces with their values, in NegX, NegY, NegZ, PosX, PosY, PosZ
    /// order.
    pub fn iter(&self) -> (r: Vec<(Direction, &T)>)
        ensures
            r@.len() == 6,
            r@[0] == (Direction::NegX, &self.neg_x),
            r@[1] == (Direction::NegY, &self.neg_y),
            r@[2] == (Direction::NegZ, &self.neg_z),
            r@[3] == (Direction::PosX, &self.pos_x),
            r@[4] == (Direction::PosY, &self.pos_y),
            r@[5] == (Direction::PosZ, &self.pos_z),
    {
        vec![
            (Direction::NegX, &self.neg_x),
            (Direction::NegY, &self.neg_y),
            (Direction::NegZ, &self.neg_z),
            (Direction::PosX, &self.pos_x),
            (Direction::PosY, &self.pos_y),
            (Direction::PosZ, &self.pos_z),
        ]
    }
}

/// Reading a face after replacing it gives the new value; the other faces
/// keep theirs.
pub proof fn law_face_read_after_write<T>(f: Faces<T>, d: Direction, e: Direction, v: T)
    ensures
        f.set_face(d, v).get_face(e) == if e == d { v } else { f.get_face(e) },
{
}

impl<T> core::ops::Index<Direction> for Faces<T> {
    type Output = T;

    fn index(&self, index: Direction) -> (r: &T)
        ensures
            *r == self.get_face(index),
    {
        self.face(index)
    }
}

impl<T> vstd::std_specs::core::IndexSpecImpl<Direction> for Faces<T> {
    open spec fn index_req(&self, index: &Direction) -> bool {
        true
    }
}

impl<T> core::ops::IndexMut<Direction> for Faces<T> {
    fn index_mut(&mut self, index: Direction) -> (r: &mut T)
        ensures
            *r == old(self).get_face(index),
            *final(self) == old(self).set_face(index, *final(r)),
    {
        self.face_mut(index)
    }
}

} // verus!
