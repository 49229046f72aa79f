//! Two-click selection of a rectangular quad of voxel faces lying in one plane.

use crate::cursor::{impact_face, MouseButton, VoxelCursor, button_spec, button_state_spec};
use crate::voxel::{coord, Extent3i, Point3i, SignedAxis3, VoxelFace};
use vstd::prelude::*;

verus! {

/// Where the selection stands.
#[derive(Clone, Copy, Debug, PartialEq, Eq, Structural)]
pub enum SelectionState {
    SelectingFirstCorner,
    SelectingSecondCorner {
        /// The first voxel face clicked.
        first_corner: VoxelFace,
        /// The face the pointer is on, while it can be the second corner.
        valid_hover: Option<VoxelFace>,
    },
    SelectionReady {
        /// The quad of voxels selected.
        quad_extent: Extent3i,
        /// The normal direction of the selected faces.
        normal: SignedAxis3,
    },
    Invisible,
}

/// The inputs that move the selection.
#[derive(Clone, Copy, Debug, PartialEq, Eq, Structural)]
pub enum SelectionEvents {
    SelectFirstCorner(VoxelFace),
    HoverMove(VoxelFace),
    SelectSecondCorner(VoxelFace),
}

/// Two faces can be the corners of one quad when they have the same normal and lie in the
/// same plane, i.e. have the same coordinate along the normal's axis.
pub open spec fn compatible(c1: VoxelFace, c2: VoxelFace) -> bool {
    c1.normal == c2.normal && coord(c1.point, c1.normal.axis) == coord(c2.point, c2.normal.axis)
}

/// Whether two faces are compatible and both in bounds, so that they can span a quad.
pub open spec fn can_span(c1: VoxelFace, c2: VoxelFace) -> bool {
    compatible(c1, c2) && c1.point.in_bounds() && c2.point.in_bounds()
}

/// The selection after one event.
pub open spec fn selection_step(s: SelectionState, ev: SelectionEvents) -> SelectionState {
    match ev {
        SelectionEvents::SelectFirstCorner(f) => SelectionState::SelectingSecondCorner {
            first_corner: f,
            valid_hover: Some(f),
        },
        SelectionEvents::HoverMove(h) => match s {
            SelectionState::SelectingSecondCorner { first_corner, .. } => if compatible(first_corner, h) {
                SelectionState::SelectingSecondCorner { first_corner, valid_hover: Some(h) }
            } else {
                s
            },
            _ => s,
        },
        SelectionEvents::SelectSecondCorner(h) => match s {
            SelectionState::SelectingSecondCorner { first_corner, .. } => if can_span(first_corner, h) {
                SelectionState::SelectionReady {
                    quad_extent: Extent3i::corners_spec(first_corner.point, h.point),
                    normal: first_corner.normal,
                }
            } else {
                SelectionState::SelectingFirstCorner
            },
            _ => s,
        },
    }
}

/// The selection after a run of events, in order.
pub open spec fn selection_after(s: SelectionState, evs: Seq<SelectionEvents>) -> SelectionState
    decreases evs.len(),
{
    if evs.len() == 0 {
        s
    } else {
        selection_step(selection_after(s, evs.drop_last()), evs.last())
    }
}

/// The selection at the start of an editing session.
pub fn initialize_selection_controller() -> (r: SelectionState)
    ensures
        r == SelectionState::SelectingFirstCorner,
{
    SelectionState::SelectingFirstCorner
}

/// Whether two faces can be the corners of one quad.
pub fn selection_corners_are_compatible(corner1: &VoxelFace, corner2: &VoxelFace) -> (r: bool)
    ensures
        r == compatible(*corner1, *corner2),
{
    corner1.normal == corner2.normal && corner1.point.axis_component(corner1.normal.axis)
        == corner2.point.axis_component(corner2.normal.axis)
}

fn corners_can_span(c1: &VoxelFace, c2: &VoxelFace) -> (r: bool)
    ensures
        r == can_span(*c1, *c2),
{
    selection_corners_are_compatible(c1, c2) && point_in_bounds(c1.point) && point_in_bounds(c2.point)
}

/// Whether `p` is in bounds.
pub fn point_in_bounds(p: Point3i) -> (r: bool)
    ensures
        r == p.in_bounds(),
{
    let lim = crate::voxel::COORD_LIMIT;
    -lim <= p.x && p.x <= lim && -lim <= p.y && p.y <= lim && -lim <= p.z && p.z <= lim
}

fn selection_event(state: SelectionState, event: SelectionEvents) -> (r: SelectionState)
    ensures
        r == selection_step(state, event),
{
    match event {
        SelectionEvents::SelectFirstCorner(first_corner) => SelectionState::SelectingSecondCorner {
            first_corner,
            valid_hover: Some(first_corner),
        },
        SelectionEvents::HoverMove(hover_face) => match state {
            SelectionState::SelectingSecondCorner { first_corner, .. } => {
                if selection_corners_are_compatible(&first_corner, &hover_face) {
                    SelectionState::SelectingSecondCorner { first_corner, valid_hover: Some(hover_face) }
                } else {
                    state
                }
            },
            _ => state,
        },
        SelectionEvents::SelectSecondCorner(hover_face) => match state {
            SelectionState::SelectingSecondCorner { first_corner, .. } => {
                if corners_can_span(&first_corner, &hover_face) {
                    SelectionState::SelectionReady {
                        quad_extent: Extent3i::from_corners(first_corner.point, hover_face.point),
                        normal: first_corner.normal,
                    }
                } else {
                    SelectionState::SelectingFirstCorner
                }
            },
            _ => state,
        },
    }
}

/// Applies this tick's selection events in order.
pub fn selection_control_system(selection_state: &mut SelectionState, events: &Vec<SelectionEvents>)
    ensures
        *final(selection_state) == selection_after(*old(selection_state), events@),
{
    let mut i: usize = 0;
    while i < events.len()
        invariant
            0 <= i <= events.len(),
            *selection_state == selection_after(*old(selection_state), events@.subrange(0, i as int)),
        decreases events.len() - i,
    {
        let ghost before = events@.subrange(0, i as int);
        *selection_state = selection_event(*selection_state, events[i]);
        assert(events@.subrange(0, i + 1).drop_last() =~= before);
        i = i + 1;
    }
    assert(events@.subrange(0, events.len() as int) =~= events@);
}

/// The events that the pointer raises for the selection this tick: a click on a face starts
/// a selection; while choosing the second corner, moving onto another face raises a hover
/// and a click raises the second corner.
pub open spec fn selection_input_events(state: SelectionState, cursor: VoxelCursor) -> Seq<SelectionEvents> {
    let clicked = if button_spec(cursor.mouse_input, MouseButton::Left).just_released
        && impact_face(cursor.impact) == button_state_spec(cursor.state, MouseButton::Left).press_start_face {
        impact_face(cursor.impact)
    } else {
        None
    };
    match state {
        SelectionState::SelectingFirstCorner => match clicked {
            Some(f) => seq![SelectionEvents::SelectFirstCorner(f)],
            None => Seq::empty(),
        },
        SelectionState::SelectingSecondCorner { valid_hover, .. } => match (impact_face(cursor.impact), valid_hover) {
            (Some(h), Some(prev)) => {
                let moved = if h != prev { seq![SelectionEvents::HoverMove(h)] } else { Seq::empty() };
                if clicked.is_some() {
                    moved.push(SelectionEvents::SelectSecondCorner(h))
                } else {
                    moved
                }
            },
            _ => Seq::empty(),
        },
        _ => Seq::empty(),
    }
}

/// Turns the pointer's state into selection events.
pub fn selection_default_input_map(selection_state: &SelectionState, voxel_cursor: &VoxelCursor) -> (r: Vec<SelectionEvents>)
    ensures
        r@ == selection_input_events(*selection_state, *voxel_cursor),
{
    let mut events: Vec<SelectionEvents> = Vec::new();
    match selection_state {
        SelectionState::SelectingFirstCorner => {
            if let Some(first_corner) = voxel_cursor.voxel_just_clicked(MouseButton::Left) {
                events.push(SelectionEvents::SelectFirstCorner(first_corner));
            }
        },
        SelectionState::SelectingSecondCorner { valid_hover, .. } => {
            if let Some(hover_face) = voxel_cursor.impact.get_voxel_face() {
                if let Some(previous_hover) = valid_hover {
                    if hover_face != *previous_hover {
                        events.push(SelectionEvents::HoverMove(hover_face));
                    }
                    if voxel_cursor.voxel_just_clicked(MouseButton::Left).is_some() {
                        events.push(SelectionEvents::SelectSecondCorner(hover_face));
                    }
                }
            }
        },
        _ => {},
    }
    assert(events@ =~= selection_input_events(*selection_state, *voxel_cursor));
    events
}

/// The quad to highlight for the selection: the face under the pointer while choosing a
/// corner (or the quad spanned so far, while the second corner is valid), the selected quad
/// when ready, and nothing when hidden. It is given as the extent of the voxels whose faces
/// it covers, with their normal.
pub open spec fn hint_quad(state: SelectionState, cursor_face: Option<VoxelFace>) -> Option<(Extent3i, SignedAxis3)> {
    let single = match cursor_face {
        Some(f) => Some((Extent3i { minimum: f.point, shape: Point3i { x: 1, y: 1, z: 1 } }, f.normal)),
        None => None,
    };
    match state {
        SelectionState::SelectingFirstCorner => single,
        SelectionState::SelectingSecondCorner { first_corner, valid_hover } => match valid_hover {
            Some(h) => if can_span(first_corner, h) {
                Some((Extent3i::corners_spec(first_corner.point, h.point), first_corner.normal))
            } else {
                None
            },
            None => single,
        },
        SelectionState::SelectionReady { quad_extent, normal } => Some((quad_extent, normal)),
        SelectionState::Invisible => None,
    }
}

/// The quad to highlight this tick; see `hint_quad`.
pub fn selection_hint_quad(selection_state: &SelectionState, cursor_face: Option<VoxelFace>) -> (r: Option<(Extent3i, SignedAxis3)>)
    ensures
        r == hint_quad(*selection_state, cursor_face),
{
    let single = match cursor_face {
        Some(f) => Some((Extent3i { minimum: f.point, shape: Point3i { x: 1, y: 1, z: 1 } }, f.normal)),
        None => None,
    };
    match selection_state {
        SelectionState::SelectingFirstCorner => single,
        SelectionState::SelectingSecondCorner { first_corner, valid_hover } => match valid_hover {
            Some(h) => if corners_can_span(first_corner, h) {
                Some((Extent3i::from_corners(first_corner.point, h.point), first_corner.normal))
            } else {
                None
            },
            None => single,
        },
        SelectionState::SelectionReady { quad_extent, normal } => Some((*quad_extent, *normal)),
        SelectionState::Invisible => None,
    }
}

} // verus!
