//! What a world does after an edit: a face of a block shown or hidden, or
//! a block replaced.
use vstd::prelude::*;
use crate::blocklayer::BlockLayer;
use crate::direction::{spec_invert, Direction};
use crate::occluder::{face_shape, spec_face_occluded_by, Occluder};
use crate::occlusion_shape::shape_on_face;

verus! {

/// The bookkeeping a face edit calls for.
#[derive(Debug, Clone, Copy, PartialEq, Eq, Structural)]
pub struct FaceEditMarks {
    /// The chunk is marked modified.
    pub mark_modified: bool,
    /// The section's blocks and the section itself are marked dirty and the
    /// section is queued for re-meshing.
    pub mark_section_dirty: bool,
}

/// The face edit changed the face: hiding a face that was shown, or showing
/// one that was hidden.
pub open spec fn face_edit_changed(hiding: bool, was_hidden: bool) -> bool {
    hiding != was_hidden
}

/// Decides the bookkeeping after a face of a block in the world bounds was
/// hidden (`hiding`) or shown, given whether the face was hidden before and
/// whether the block lies in the render bounds: an edit that changed the
/// face marks its chunk modified and, in the render bounds, marks its
/// section dirty so it is meshed again; an edit that changed nothing marks
/// nothing.
pub fn face_edit_marks(hiding: bool, was_hidden: bool, in_render_bounds: bool) -> (r: FaceEditMarks)
    ensures
        r.mark_modified == face_edit_changed(hiding, was_hidden),
        r.mark_section_dirty == (face_edit_changed(hiding, was_hidden) && in_render_bounds),
        r.mark_modified == ((hiding && !was_hidden) || (!hiding && was_hidden)),
        r.mark_section_dirty ==> r.mark_modified && in_render_bounds,
{
    let changed = if hiding { !was_hidden } else { was_hidden };
    FaceEditMarks { mark_modified: changed, mark_section_dirty: changed && in_render_bounds }
}

/// What happens to the update handle of a block that was replaced.
#[derive(Debug, Clone, Copy, PartialEq, Eq, Structural)]
pub enum UpdateRefAction {
    /// The block gets no handle.
    Keep,
    /// The block is pushed on the update queue and gets the new handle.
    Enable,
    /// The block's handle is removed from the queue and cleared.
    Disable,
}

/// The action [`placed_update_action`] decides.
pub open spec fn spec_placed_update_action(has_ref: bool, enable: Option<bool>, enable_on_place: bool) -> UpdateRefAction {
    if !has_ref && (enable == Some(true) || (enable != Some(false) && enable_on_place)) {
        UpdateRefAction::Enable
    } else if has_ref {
        UpdateRefAction::Disable
    } else {
        UpdateRefAction::Keep
    }
}

/// Decides the update handle of a block that a placement changed, given
/// whether it had a handle, what the placement asked for (`Some(true)` to
/// enable, `Some(false)` not to, `None` to let the block decide) and what
/// the block decides on placement. A block without a handle is enabled when
/// asked to, or when left to decide and it chooses to; a block that had a
/// handle loses it.
pub fn placed_update_action(has_ref: bool, enable: Option<bool>, enable_on_place: bool) -> (r: UpdateRefAction)
    ensures
        r == spec_placed_update_action(has_ref, enable, enable_on_place),
        has_ref ==> r == UpdateRefAction::Disable,
        !has_ref && enable == Some(true) ==> r == UpdateRefAction::Enable,
        !has_ref && enable == Some(false) ==> r == UpdateRefAction::Keep,
        !has_ref && enable is None ==> r == (if enable_on_place { UpdateRefAction::Enable } else { UpdateRefAction::Keep }),
{
    let asked = match enable {
        Some(true) => true,
        Some(false) => false,
        None => enable_on_place,
    };
    if !has_ref && asked {
        UpdateRefAction::Enable
    } else if has_ref {
        UpdateRefAction::Disable
    } else {
        UpdateRefAction::Keep
    }
}

/// [`Occluder::occluded_by`] accepts the face `face` of `l` against the
/// opposite face of `r`.
pub open spec fn faces_checkable(l: Occluder, face: Direction, r: Occluder) -> bool {
    let rs = face_shape(r, spec_invert(face));
    !(rs is Empty) && !(rs is Full) ==> shape_on_face(face_shape(l, face)) && shape_on_face(rs)
}

/// Whether the two faces that meet across `dir` end up hidden after a block
/// was placed: the placed block's face `dir`, and its neighbour's opposite
/// face. Blocks on different layers do not occlude each other; otherwise a
/// face is hidden when its occludee shape is occluded by the other block's
/// occluder shape.
pub open spec fn spec_neighbor_faces_hidden(
    dir: Direction,
    my_layer: BlockLayer,
    my_occluder: Occluder,
    my_occludee: Occluder,
    adj_layer: BlockLayer,
    adj_occluder: Occluder,
    adj_occludee: Occluder,
) -> (bool, bool) {
    if adj_layer != my_layer {
        (false, false)
    } else {
        (
            spec_face_occluded_by(face_shape(my_occludee, dir), face_shape(adj_occluder, spec_invert(dir))),
            spec_face_occluded_by(face_shape(adj_occludee, spec_invert(dir)), face_shape(my_occluder, dir)),
        )
    }
}

/// Decides, for a placed block and its neighbour across `dir`, whether the
/// placed block's face `dir` and the neighbour's opposite face are hidden
/// (`true`) or shown (`false`), from the layers, occluders and occludees of
/// the two blocks (in the default orientation).
pub fn neighbor_faces_hidden(
    dir: Direction,
    my_layer: BlockLayer,
    my_occluder: &Occluder,
    my_occludee: &Occluder,
    adj_layer: BlockLayer,
    adj_occluder: &Occluder,
    adj_occludee: &Occluder,
) -> (r: (bool, bool))
    requires
        faces_checkable(*my_occludee, dir, *adj_occluder),
        faces_checkable(*adj_occludee, spec_invert(dir), *my_occluder),
    ensures
        r == spec_neighbor_faces_hidden(dir, my_layer, *my_occluder, *my_occludee, adj_layer, *adj_occluder, *adj_occludee),
        adj_layer != my_layer ==> r == (false, false),
        adj_layer == my_layer ==> r.0 == spec_face_occluded_by(face_shape(*my_occludee, dir), face_shape(*adj_occluder, spec_invert(dir))),
        adj_layer == my_layer ==> r.1 == spec_face_occluded_by(face_shape(*adj_occludee, spec_invert(dir)), face_shape(*my_occluder, dir)),
{
    if adj_layer != my_layer {
        return (false, false);
    }
    let adj_dir = dir.invert();
    proof {
        crate::direction::law_invert_involution(dir);
    }
    let mine = my_occludee.occluded_by(dir, adj_occluder);
    let theirs = adj_occludee.occluded_by(adj_dir, my_occluder);
    (mine, theirs)
}

/// A face edit marks its chunk modified exactly when it changed the face
/// (hid a shown face or showed a hidden one), and marks the section dirty
/// only for such an edit inside the render bounds.
pub proof fn law_face_edit_marks(hiding: bool, was_hidden: bool, in_render_bounds: bool)
    ensures
        face_edit_changed(hiding, was_hidden) == ((hiding && !was_hidden) || (!hiding && was_hidden)),
        face_edit_changed(true, true) == false,
        face_edit_changed(false, false) == false,
{
}

/// A replaced block that had an update handle always loses it, whatever
/// was asked and whatever the block decides. A block without one is
/// enabled exactly when asked to, or, when nothing was asked, when the
/// block decides so; asked not to, it stays without a handle.
pub proof fn law_placed_update_action(has_ref: bool, enable: Option<bool>, enable_on_place: bool)
    ensures
        has_ref ==> spec_placed_update_action(has_ref, enable, enable_on_place) == UpdateRefAction::Disable,
        !has_ref ==> (spec_placed_update_action(has_ref, enable, enable_on_place) == UpdateRefAction::Enable
            <==> (enable == Some(true) || (enable is None && enable_on_place))),
        !has_ref ==> spec_placed_update_action(has_ref, enable, enable_on_place) != UpdateRefAction::Disable,
{
    match enable {
        Some(v) => {
            assert(v ==> enable == Some(true));
            assert(!v ==> enable == Some(false));
        },
        None => {},
    }
}

/// Blocks on different layers never hide each other's faces, whatever the
/// layers and shapes. On one layer each face is hidden exactly when its
/// occludee shape is occluded by the facing occluder shape of the other
/// block; and the decision is the same seen from either block: swapping
/// the two blocks (and turning the direction round) swaps the two flags.
pub proof fn law_neighbor_faces_hidden(
    dir: Direction,
    my_layer: BlockLayer,
    my_occluder: Occluder,
    my_occludee: Occluder,
    adj_layer: BlockLayer,
    adj_occluder: Occluder,
    adj_occludee: Occluder,
)
    ensures
        adj_layer != my_layer ==> spec_neighbor_faces_hidden(
            dir, my_layer, my_occluder, my_occludee, adj_layer, adj_occluder, adj_occludee) == (false, false),
        adj_layer == my_layer ==> spec_neighbor_faces_hidden(
            dir, my_layer, my_occluder, my_occludee, adj_layer, adj_occluder, adj_occludee).0
            == spec_face_occluded_by(face_shape(my_occludee, dir), face_shape(adj_occluder, spec_invert(dir))),
        adj_layer == my_layer ==> spec_neighbor_faces_hidden(
            dir, my_layer, my_occluder, my_occludee, adj_layer, adj_occluder, adj_occludee).1
            == spec_face_occluded_by(face_shape(adj_occludee, spec_invert(dir)), face_shape(my_occluder, dir)),
        ({
            let r = spec_neighbor_faces_hidden(dir, my_layer, my_occluder, my_occludee, adj_layer, adj_occluder, adj_occludee);
            let swapped = spec_neighbor_faces_hidden(
                spec_invert(dir), adj_layer, adj_occluder, adj_occludee, my_layer, my_occluder, my_occludee);
            swapped == (r.1, r.0)
        }),
{
    crate::direction::law_invert_involution(dir);
}

} // verus!
