//! The drag-face tool: pulls a selected quad along its normal, filling the swept voxels with
//! solid when it moves outward and emptying them when it moves inward.

use crate::cursor::{impact_face, MouseButton, VoxelCursor, button_spec};
use crate::editor::{recorded, SnapshottingVoxelEditor, VoxelEdit};
use crate::chunk_map::voxel_at;
use crate::selection::{point_in_bounds, SelectionState};
use crate::timeline::Snapshot;
use crate::tools::CurrentTool;
use crate::voxel::{coord, Extent3i, Point3i, SignedAxis3, Voxel, VoxelFace, COORD_LIMIT};
use vstd::prelude::*;

verus! {

/// The state of the drag-face tool.
#[derive(Clone, Copy, Debug, PartialEq, Eq, Structural)]
pub enum DragFaceState {
    /// Waiting for a press on the selected quad.
    SelectionReady,
    /// Dragging the quad; `previous_drag_point` is where the pointer last projected onto the
    /// line along the normal.
    DraggingFace { quad_extent: Extent3i, normal: SignedAxis3, previous_drag_point: Point3i },
}

/// The inputs of the drag-face tool.
#[derive(Clone, Copy, Debug, PartialEq, Eq, Structural)]
pub enum DragFaceEvents {
    StartDragFace(VoxelFace),
    UpdateDragFace(Point3i),
    FinishDragFace,
}

/// The material written by dragging outward.
pub const DRAG_SOLID_TYPE: u8 = 2;

/// `quad` moved so that its least coordinate along `axis` is `c`.
pub open spec fn dragged_quad(quad: Extent3i, normal: SignedAxis3, c: int) -> Extent3i {
    Extent3i {
        minimum: quad.minimum.with_axis_spec(normal.axis, c as i32),
        shape: quad.shape,
    }
}

/// The voxel written over the swept region: solid when the drag goes along the normal,
/// empty otherwise.
pub open spec fn drag_fill_voxel(normal: SignedAxis3, previous: Point3i, new: Point3i) -> Voxel {
    if coord(new, normal.axis) * normal.sign > coord(previous, normal.axis) * normal.sign {
        Voxel { voxel_type: DRAG_SOLID_TYPE, distance: -127i8 }
    } else {
        Voxel { voxel_type: 0, distance: 127 }
    }
}

/// The region swept between two positions of a quad: from the least of their minimums to the
/// greatest of their maximums.
pub open spec fn swept_extent(a: Extent3i, b: Extent3i) -> Extent3i {
    Extent3i::min_and_max_spec(a.minimum.meet_spec(b.minimum), a.max_spec().join_spec(b.max_spec()))
}

/// A quad can be dragged when it and its dragged position both lie in bounds.
pub open spec fn drag_in_bounds(quad: Extent3i, normal: SignedAxis3, new: Point3i) -> bool {
    quad.in_bounds() && new.in_bounds() && dragged_quad(quad, normal, coord(new, normal.axis)).in_bounds()
}

/// The tool and selection after one event (voxel writes aside).
pub open spec fn drag_step(tool: CurrentTool, sel: SelectionState, ev: DragFaceEvents) -> (CurrentTool, SelectionState) {
    match tool {
        CurrentTool::DragFace(state) => match ev {
            DragFaceEvents::StartDragFace(f) => match sel {
                SelectionState::SelectionReady { quad_extent, normal } => (
                    CurrentTool::DragFace(DragFaceState::DraggingFace { quad_extent, normal, previous_drag_point: f.point }),
                    SelectionState::Invisible,
                ),
                _ => (tool, sel),
            },
            DragFaceEvents::UpdateDragFace(p) => match state {
                DragFaceState::DraggingFace { quad_extent, normal, .. } => if drag_in_bounds(quad_extent, normal, p) {
                    (
                        CurrentTool::DragFace(DragFaceState::DraggingFace {
                            quad_extent: dragged_quad(quad_extent, normal, coord(p, normal.axis)),
                            normal,
                            previous_drag_point: p,
                        }),
                        sel,
                    )
                } else {
                    (tool, sel)
                },
                _ => (tool, sel),
            },
            DragFaceEvents::FinishDragFace => (
                CurrentTool::DragFace(DragFaceState::SelectionReady),
                SelectionState::SelectingFirstCorner,
            ),
        },
        _ => (tool, sel),
    }
}

/// The tool and selection after a run of events, in order.
pub open spec fn drag_after(tool: CurrentTool, sel: SelectionState, evs: Seq<DragFaceEvents>) -> (CurrentTool, SelectionState)
    decreases evs.len(),
{
    if evs.len() == 0 {
        (tool, sel)
    } else {
        let (t, s) = drag_after(tool, sel, evs.drop_last());
        drag_step(t, s, evs.last())
    }
}

/// What one event asks of the camera controller: disable it when a drag starts, enable it
/// when a drag finishes.
pub open spec fn camera_request(tool: CurrentTool, sel: SelectionState, ev: DragFaceEvents) -> Option<bool> {
    match tool {
        CurrentTool::DragFace(_) => match ev {
            DragFaceEvents::StartDragFace(_) => match sel {
                SelectionState::SelectionReady { .. } => Some(false),
                _ => None,
            },
            DragFaceEvents::FinishDragFace => Some(true),
            _ => None,
        },
        _ => None,
    }
}

/// The events that the pointer raises for the drag-face tool this tick. `drag_point` is the
/// voxel holding the point of the line through the previous drag point, along the normal,
/// closest to the pointer ray (`None` when the pointer ray is missing or parallel to it).
pub open spec fn drag_input_events(
    tool: CurrentTool,
    sel: SelectionState,
    cursor: VoxelCursor,
    drag_point: Option<Point3i>,
) -> Seq<DragFaceEvents> {
    match tool {
        CurrentTool::DragFace(DragFaceState::SelectionReady) => match sel {
            SelectionState::SelectionReady { quad_extent, .. } => {
                if button_spec(cursor.mouse_input, MouseButton::Left).just_pressed {
                    match impact_face(cursor.impact) {
                        Some(f) => if quad_extent.contains_spec(f.point) {
                            seq![DragFaceEvents::StartDragFace(f)]
                        } else {
                            Seq::empty()
                        },
                        None => Seq::empty(),
                    }
                } else {
                    Seq::empty()
                }
            },
            _ => Seq::empty(),
        },
        CurrentTool::DragFace(DragFaceState::DraggingFace { previous_drag_point, .. }) => {
            let moved = match drag_point {
                Some(p) => if p != previous_drag_point { seq![DragFaceEvents::UpdateDragFace(p)] } else { Seq::empty() },
                None => Seq::empty(),
            };
            if button_spec(cursor.mouse_input, MouseButton::Left).just_released {
                moved.push(DragFaceEvents::FinishDragFace)
            } else {
                moved
            }
        },
        _ => Seq::empty(),
    }
}

/// What one event does to the editor, given the tool before it: a drag update writes the
/// swept region and records its chunks in the edit being built, a finish closes the edit as
/// one undo unit, and anything else leaves the editor alone.
pub open spec fn drag_effect(
    t0: CurrentTool,
    ed0: SnapshottingVoxelEditor,
    ed1: SnapshottingVoxelEditor,
    event: DragFaceEvents,
) -> bool {
    match (t0, event) {
        (CurrentTool::DragFace(DragFaceState::DraggingFace { quad_extent, normal, previous_drag_point }),
            DragFaceEvents::UpdateDragFace(p)) => if drag_in_bounds(quad_extent, normal, p) {
            let sweep = swept_extent(quad_extent, dragged_quad(quad_extent, normal, coord(p, normal.axis)));
            let fill = drag_fill_voxel(normal, previous_drag_point, p);
            &&& ed1.undo_spec() == ed0.undo_spec() && ed1.redo_spec() == ed0.redo_spec()
            &&& ed1.committed() == ed0.committed()
            &&& ed1.current_spec() == recorded(ed0.current_spec(), ed0.volume(), sweep, ed0.edge_spec())
            &&& forall|q: Point3i| #[trigger] q.in_bounds() ==> voxel_at(ed1.volume(), ed1.edge_spec(), q)
                == if sweep.contains_spec(q) { fill } else { voxel_at(ed0.volume(), ed0.edge_spec(), q) }
        } else {
            ed1 == ed0
        },
        (CurrentTool::DragFace(_), DragFaceEvents::FinishDragFace) => {
            &&& ed1.volume() == ed0.volume()
            &&& ed1.committed() == ed0.volume()
            &&& ed1.undo_spec() == ed0.undo_spec().push(ed0.current_spec())
            &&& ed1.redo_spec() == Seq::<Snapshot>::empty()
            &&& ed1.current_spec() == Map::<Point3i, Seq<Voxel>>::empty()
        },
        _ => ed1 == ed0,
    }
}

/// Turns the pointer's state into drag-face events.
pub fn drag_face_default_input_map(
    current_tool: &CurrentTool,
    selection_state: &SelectionState,
    voxel_cursor: &VoxelCursor,
    drag_point: Option<Point3i>,
) -> (r: Vec<DragFaceEvents>)
    ensures
        r@ == drag_input_events(*current_tool, *selection_state, *voxel_cursor, drag_point),
{
    let mut events: Vec<DragFaceEvents> = Vec::new();
    match current_tool {
        CurrentTool::DragFace(DragFaceState::SelectionReady) => {
            if let SelectionState::SelectionReady { quad_extent, .. } = selection_state {
                if let Some(voxel_face) = voxel_cursor.voxel_just_pressed(MouseButton::Left) {
                    if quad_extent.contains(voxel_face.point) {
                        events.push(DragFaceEvents::StartDragFace(voxel_face));
                    }
                }
            }
        },
        CurrentTool::DragFace(DragFaceState::DraggingFace { previous_drag_point, .. }) => {
            if let Some(p) = drag_point {
                if p != *previous_drag_point {
                    events.push(DragFaceEvents::UpdateDragFace(p));
                }
            }
            if voxel_cursor.mouse_input.just_released(MouseButton::Left) {
                events.push(DragFaceEvents::FinishDragFace);
            }
        },
        _ => {},
    }
    assert(events@ =~= drag_input_events(*current_tool, *selection_state, *voxel_cursor, drag_point));
    events
}

/// Whether every point of `e` is in bounds.
pub fn extent_in_bounds(e: &Extent3i) -> (r: bool)
    ensures
        r == e.in_bounds(),
{
    let lim = COORD_LIMIT as i64;
    e.shape.x >= 0 && e.shape.y >= 0 && e.shape.z >= 0 && point_in_bounds(e.minimum)
        && e.minimum.x as i64 + e.shape.x as i64 <= lim + 1 && e.minimum.y as i64 + e.shape.y as i64 <= lim + 1
        && e.minimum.z as i64 + e.shape.z as i64 <= lim + 1
}

/// The coordinate of `p` along `normal`'s axis, times its sign.
fn signed_coord(p: Point3i, normal: SignedAxis3) -> (r: i64)
    ensures
        r == coord(p, normal.axis) * normal.sign,
{
    let c = p.axis_component(normal.axis) as i64;
    let s = normal.sign as i64;
    assert(-0x8000_0000 * 0x8000_0000 <= c * s <= 0x8000_0000 * 0x8000_0000) by (nonlinear_arith)
        requires -0x8000_0000 <= c <= 0x8000_0000, -0x8000_0000 <= s <= 0x8000_0000;
    c * s
}

/// Handles one drag-face event, and says what it asks of the camera controller.
pub fn drag_face_event(
    current_tool: &mut CurrentTool,
    voxel_editor: &mut SnapshottingVoxelEditor,
    selection_state: &mut SelectionState,
    event: DragFaceEvents,
) -> (camera_enabled: Option<bool>)
    requires
        old(voxel_editor).wf(),
    ensures
        final(voxel_editor).wf(),
        final(voxel_editor).edge_spec() == old(voxel_editor).edge_spec(),
        (*final(current_tool), *final(selection_state)) == drag_step(*old(current_tool), *old(selection_state), event),
        camera_enabled == camera_request(*old(current_tool), *old(selection_state), event),
        drag_effect(*old(current_tool), *old(voxel_editor), *final(voxel_editor), event),
{
    let state = match current_tool {
        CurrentTool::DragFace(state) => *state,
        _ => return None,
    };
    match event {
        DragFaceEvents::StartDragFace(voxel_face) => {
            if let SelectionState::SelectionReady { quad_extent, normal } = *selection_state {
                *current_tool = CurrentTool::DragFace(DragFaceState::DraggingFace {
                    quad_extent,
                    normal,
                    previous_drag_point: voxel_face.point,
                });
                *selection_state = SelectionState::Invisible;
                Some(false)
            } else {
                None
            }
        },
        DragFaceEvents::UpdateDragFace(new_drag_point) => {
            if let DragFaceState::DraggingFace { quad_extent, normal, previous_drag_point } = state {
                if !extent_in_bounds(&quad_extent) || !point_in_bounds(new_drag_point) {
                    return None;
                }
                let new_axis_coord = new_drag_point.axis_component(normal.axis);
                let new_quad = Extent3i {
                    minimum: quad_extent.minimum.with_axis_component(normal.axis, new_axis_coord),
                    shape: quad_extent.shape,
                };
                assert(new_quad == dragged_quad(quad_extent, normal, coord(new_drag_point, normal.axis)));
                if !extent_in_bounds(&new_quad) {
                    return None;
                }
                let fill_min = new_quad.minimum.meet(&quad_extent.minimum);
                let fill_max = new_quad.max().join(&quad_extent.max());
                let fill_extent = Extent3i::from_min_and_max(fill_min, fill_max);
                assert(fill_extent == swept_extent(quad_extent, new_quad));
                let write_voxel = if signed_coord(new_drag_point, normal) > signed_coord(previous_drag_point, normal) {
                    Voxel { voxel_type: DRAG_SOLID_TYPE, distance: -127 }
                } else {
                    Voxel { voxel_type: 0, distance: 127 }
                };
                assert(write_voxel == drag_fill_voxel(normal, previous_drag_point, new_drag_point));
                voxel_editor.edit_extent_and_touch_neighbors(fill_extent, VoxelEdit::Fill(write_voxel));
                *current_tool = CurrentTool::DragFace(DragFaceState::DraggingFace {
                    quad_extent: new_quad,
                    normal,
                    previous_drag_point: new_drag_point,
                });
            }
            None
        },
        DragFaceEvents::FinishDragFace => {
            voxel_editor.finish_edit();
            *current_tool = CurrentTool::DragFace(DragFaceState::SelectionReady);
            *selection_state = SelectionState::SelectingFirstCorner;
            Some(true)
        },
    }
}

/// The camera controller's enabled flag as the last event of a run that asked for a change
/// left it, if any did.
pub open spec fn last_camera_request(tool: CurrentTool, sel: SelectionState, evs: Seq<DragFaceEvents>) -> Option<bool>
    decreases evs.len(),
{
    if evs.len() == 0 {
        None
    } else {
        let (t, s) = drag_after(tool, sel, evs.drop_last());
        match camera_request(t, s, evs.last()) {
            Some(b) => Some(b),
            None => last_camera_request(tool, sel, evs.drop_last()),
        }
    }
}

/// Handles this tick's drag-face events in order: the editor passes through one state per
/// event, each related to the one before by `drag_effect`. Returns the camera controller's new
/// enabled flag, when an event changed it.
pub fn drag_face_tool_system(
    current_tool: &mut CurrentTool,
    voxel_editor: &mut SnapshottingVoxelEditor,
    selection_state: &mut SelectionState,
    events: &Vec<DragFaceEvents>,
) -> (camera_enabled: Option<bool>)
    requires
        old(voxel_editor).wf(),
    ensures
        final(voxel_editor).wf(),
        final(voxel_editor).edge_spec() == old(voxel_editor).edge_spec(),
        (*final(current_tool), *final(selection_state)) == drag_after(*old(current_tool), *old(selection_state), events@),
        exists|eds: Seq<SnapshottingVoxelEditor>| {
            &&& eds.len() == events@.len() + 1
            &&& eds[0] == *old(voxel_editor)
            &&& eds.last() == *final(voxel_editor)
            &&& forall|i: int| 0 <= i < events@.len() ==> drag_effect(
                #[trigger] drag_after(*old(current_tool), *old(selection_state), events@.subrange(0, i)).0,
                eds[i],
                eds[i + 1],
                events@[i],
            )
        },
        camera_enabled == last_camera_request(*old(current_tool), *old(selection_state), events@),
{
    let mut camera_enabled: Option<bool> = None;
    let mut i: usize = 0;
    let ghost mut eds: Seq<SnapshottingVoxelEditor> = seq![*voxel_editor];
    while i < events.len()
        invariant
            0 <= i <= events.len(),
            voxel_editor.wf(),
            voxel_editor.edge_spec() == old(voxel_editor).edge_spec(),
            (*current_tool, *selection_state) == drag_after(*old(current_tool), *old(selection_state), events@.subrange(0, i as int)),
            eds.len() == i + 1,
            eds[0] == *old(voxel_editor),
            eds.last() == *voxel_editor,
            forall|j: int| 0 <= j < i ==> drag_effect(
                #[trigger] drag_after(*old(current_tool), *old(selection_state), events@.subrange(0, j)).0,
                eds[j],
                eds[j + 1],
                events@[j],
            ),
            camera_enabled == last_camera_request(*old(current_tool), *old(selection_state), events@.subrange(0, i as int)),
        decreases events.len() - i,
    {
        let ghost before = events@.subrange(0, i as int);
        let request = drag_face_event(current_tool, voxel_editor, selection_state, events[i]);
        if request.is_some() {
            camera_enabled = request;
        }
        proof {
            let ghost prev = eds;
            eds = eds.push(*voxel_editor);
            assert forall|j: int| 0 <= j < i + 1 implies drag_effect(
                #[trigger] drag_after(*old(current_tool), *old(selection_state), events@.subrange(0, j)).0,
                eds[j],
                eds[j + 1],
                events@[j],
            ) by {
                if j < i {
                    assert(eds[j] == prev[j] && eds[j + 1] == prev[j + 1]);
                }
            }
            let after = events@.subrange(0, i + 1);
            assert(after.drop_last() =~= before);
            assert(after.last() == events@[i as int]);
        }
        i = i + 1;
    }
    assert(events@.subrange(0, events.len() as int) =~= events@);
    camera_enabled
}

} // verus!
