//! What a block decides when it is placed: the state that goes in, its
//! data, and whether it receives updates.
use vstd::prelude::*;
use crate::blocks::Id;
use crate::coord::Coord;

verus! {

/// The placement of a block at a coordinate, as the placed block may
/// change it. `T` is the type of the block data.
pub struct PlaceContext<T> {
    coord: Coord,
    replacement: Id,
    old: Id,
    data: Option<T>,
    changed: bool,
    enable: Option<bool>,
}

impl<T> PlaceContext<T> {
    /// The data to store with the block, if any.
    pub closed spec fn spec_data(&self) -> Option<T> {
        self.data
    }

    /// The replacement was changed by [`PlaceContext::replace`].
    pub closed spec fn spec_changed(&self) -> bool {
        self.changed
    }

    /// Whether the block is to receive updates (`None`: left as it is).
    pub closed spec fn spec_enable(&self) -> Option<bool> {
        self.enable
    }

    pub closed spec fn spec_coord(&self) -> Coord {
        self.coord
    }

    pub closed spec fn spec_old(&self) -> Id {
        self.old
    }

    pub closed spec fn spec_replacement(&self) -> Id {
        self.replacement
    }

    /// A placement of `replacement` over `old` at `coord`, with no data, not
    /// changed, and updates left as they are.
    pub fn new(coord: Coord, replacement: Id, old: Id) -> (r: Self)
        ensures
            r.spec_coord() == coord,
            r.spec_replacement() == replacement,
            r.spec_old() == old,
            r.spec_data() is None,
            !r.spec_changed(),
            r.spec_enable() is None,
    {
        Self { coord, replacement, old, data: None, changed: false, enable: None }
    }

    /// Places `state` instead and records the change.
    pub fn replace(&mut self, state: Id)
        ensures
            final(self).spec_replacement() == state,
            final(self).spec_changed(),
            final(self).spec_coord() == old(self).spec_coord(),
            final(self).spec_old() == old(self).spec_old(),
            final(self).spec_data() == old(self).spec_data(),
            final(self).spec_enable() == old(self).spec_enable(),
    {
        self.replacement = state;
        self.changed = true;
    }

    /// Stores `data` with the block.
    pub fn set_data(&mut self, data: T)
        ensures
            final(self).spec_data() == Some(data),
            final(self).spec_replacement() == old(self).spec_replacement(),
            final(self).spec_changed() == old(self).spec_changed(),
            final(self).spec_coord() == old(self).spec_coord(),
            final(self).spec_old() == old(self).spec_old(),
            final(self).spec_enable() == old(self).spec_enable(),
    {
        self.data = Some(data);
    }

    pub fn coord(&self) -> (r: Coord)
        ensures
            r == self.spec_coord(),
    {
        self.coord
    }

    /// The state being replaced.
    pub fn old_state(&self) -> (r: Id)
        ensures
            r == self.spec_old(),
    {
        self.old
    }

    pub fn replacement(&self) -> (r: Id)
        ensures
            r == self.spec_replacement(),
    {
        self.replacement
    }

    /// Updates are to be switched on.
    pub fn enabled(&self) -> (r: bool)
        ensures
            r == (self.spec_enable() == Some(true)),
    {
        matches!(self.enable, Some(true))
    }

    /// Updates are to be switched off (not the same as `!enabled()`: with
    /// neither, updates are left as they are).
    pub fn disabled(&self) -> (r: bool)
        ensures
            r == (self.spec_enable() == Some(false)),
    {
        matches!(self.enable, Some(false))
    }

    /// Switches updates on.
    pub fn enable(&mut self)
        ensures
            final(self).spec_enable() == Some(true),
            final(self).spec_replacement() == old(self).spec_replacement(),
            final(self).spec_changed() == old(self).spec_changed(),
            final(self).spec_data() == old(self).spec_data(),
    {
        self.enable = Some(true);
    }

    /// Switches updates off.
    pub fn disable(&mut self)
        ensures
            final(self).spec_enable() == Some(false),
            final(self).spec_replacement() == old(self).spec_replacement(),
            final(self).spec_changed() == old(self).spec_changed(),
            final(self).spec_data() == old(self).spec_data(),
    {
        self.enable = Some(false);
    }

    /// Switches updates on, whatever `enabled` says.
    pub fn set_enabled(&mut self, enabled: bool)
        ensures
            final(self).spec_enable() == Some(true),
            final(self).spec_replacement() == old(self).spec_replacement(),
            final(self).spec_changed() == old(self).spec_changed(),
            final(self).spec_data() == old(self).spec_data(),
    {
        self.enable = Some(true);
    }
}

} // verus!
