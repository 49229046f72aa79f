use feldspar_editor::chunk_map::ChunkMap;
use feldspar_editor::cursor::{ButtonInput, MouseInput, VoxelCursor, VoxelCursorRayImpact, VoxelCursorStates};
use feldspar_editor::drag_face::{drag_face_default_input_map, drag_face_tool_system, DragFaceEvents, DragFaceState};
use feldspar_editor::editor::SnapshottingVoxelEditor;
use feldspar_editor::selection::SelectionState;
use feldspar_editor::tools::{tool_switcher_system, CurrentTool};
use feldspar_editor::voxel::{Axis3, Extent3i, Point3i, SignedAxis3, Voxel, VoxelFace};

fn up_y() -> SignedAxis3 {
    SignedAxis3 { sign: 1, axis: Axis3::Y }
}

fn ready() -> SelectionState {
    SelectionState::SelectionReady {
        quad_extent: Extent3i::from_min_and_shape(Point3i::new(0, 0, 0), Point3i::new(3, 1, 3)),
        normal: up_y(),
    }
}

#[test]
fn dragging_outward_fills_and_inward_empties() {
    let mut editor = SnapshottingVoxelEditor::new(ChunkMap::new(16));
    let mut tool = CurrentTool::DragFace(DragFaceState::SelectionReady);
    let mut selection = ready();
    let start = VoxelFace { point: Point3i::new(1, 0, 1), normal: up_y() };
    let cam = drag_face_tool_system(&mut tool, &mut editor, &mut selection, &vec![DragFaceEvents::StartDragFace(start)]);
    assert_eq!(cam, Some(false));
    assert_eq!(selection, SelectionState::Invisible);
    let cam = drag_face_tool_system(&mut tool, &mut editor, &mut selection, &vec![DragFaceEvents::UpdateDragFace(Point3i::new(1, 2, 1))]);
    assert_eq!(cam, None);
    assert_eq!(
        tool,
        CurrentTool::DragFace(DragFaceState::DraggingFace {
            quad_extent: Extent3i::from_min_and_shape(Point3i::new(0, 2, 0), Point3i::new(3, 1, 3)),
            normal: up_y(),
            previous_drag_point: Point3i::new(1, 2, 1),
        })
    );
    let solid = Voxel { voxel_type: 2, distance: -127 };
    let ambient = Voxel { voxel_type: 0, distance: 127 };
    assert_eq!(editor.get_voxel(Point3i::new(0, 1, 0)), solid);
    assert_eq!(editor.get_voxel(Point3i::new(2, 2, 2)), solid);
    assert_eq!(editor.get_voxel(Point3i::new(3, 1, 0)), ambient);
    assert_eq!(editor.get_voxel(Point3i::new(1, 3, 1)), ambient);

    drag_face_tool_system(&mut tool, &mut editor, &mut selection, &vec![DragFaceEvents::UpdateDragFace(Point3i::new(1, 1, 1))]);
    let empty = Voxel { voxel_type: 0, distance: 127 };
    assert_eq!(editor.get_voxel(Point3i::new(1, 2, 1)), empty);
    assert_eq!(editor.get_voxel(Point3i::new(1, 1, 1)), empty);
    assert_eq!(editor.get_voxel(Point3i::new(1, 0, 1)), solid);

    let cam = drag_face_tool_system(&mut tool, &mut editor, &mut selection, &vec![DragFaceEvents::FinishDragFace]);
    assert_eq!(cam, Some(true));
    assert_eq!(tool, CurrentTool::DragFace(DragFaceState::SelectionReady));
    assert_eq!(selection, SelectionState::SelectingFirstCorner);
    editor.undo();
    assert_eq!(editor.get_voxel(Point3i::new(1, 0, 1)), ambient);
}

#[test]
fn start_needs_a_ready_selection() {
    let mut editor = SnapshottingVoxelEditor::new(ChunkMap::new(16));
    let mut tool = CurrentTool::DragFace(DragFaceState::SelectionReady);
    let mut selection = SelectionState::SelectingFirstCorner;
    let start = VoxelFace { point: Point3i::new(1, 0, 1), normal: up_y() };
    let cam = drag_face_tool_system(&mut tool, &mut editor, &mut selection, &vec![DragFaceEvents::StartDragFace(start)]);
    assert_eq!(cam, None);
    assert_eq!(tool, CurrentTool::DragFace(DragFaceState::SelectionReady));
    let mut other = CurrentTool::Terraform;
    let mut sel = ready();
    assert_eq!(drag_face_tool_system(&mut other, &mut editor, &mut sel, &vec![DragFaceEvents::FinishDragFace]), None);
    assert_eq!(sel, ready());
}

#[test]
fn input_map_starts_on_the_quad_and_moves_on_a_new_point() {
    let up = ButtonInput { pressed: false, just_pressed: false, just_released: false };
    let press = ButtonInput { pressed: true, just_pressed: true, just_released: false };
    let release = ButtonInput { pressed: false, just_pressed: false, just_released: true };
    let inside = VoxelFace { point: Point3i::new(2, 0, 2), normal: up_y() };
    let cursor = |f: VoxelFace, b: ButtonInput| VoxelCursor {
        impact: VoxelCursorRayImpact { maybe_point: Some(f.point), normal: Some(f.normal) },
        mouse_input: MouseInput { left: b, middle: up, right: up },
        state: VoxelCursorStates::new(),
    };
    let tool = CurrentTool::DragFace(DragFaceState::SelectionReady);
    assert_eq!(
        drag_face_default_input_map(&tool, &ready(), &cursor(inside, press), None),
        vec![DragFaceEvents::StartDragFace(inside)]
    );
    let outside = VoxelFace { point: Point3i::new(5, 0, 2), normal: up_y() };
    assert_eq!(drag_face_default_input_map(&tool, &ready(), &cursor(outside, press), None), vec![]);
    let dragging = CurrentTool::DragFace(DragFaceState::DraggingFace {
        quad_extent: Extent3i::from_min_and_shape(Point3i::new(0, 0, 0), Point3i::new(3, 1, 3)),
        normal: up_y(),
        previous_drag_point: Point3i::new(2, 0, 2),
    });
    assert_eq!(
        drag_face_default_input_map(&dragging, &SelectionState::Invisible, &cursor(inside, release), Some(Point3i::new(2, 4, 2))),
        vec![DragFaceEvents::UpdateDragFace(Point3i::new(2, 4, 2)), DragFaceEvents::FinishDragFace]
    );
    assert_eq!(
        drag_face_default_input_map(&dragging, &SelectionState::Invisible, &cursor(inside, up), Some(Point3i::new(2, 0, 2))),
        vec![]
    );
}

#[test]
fn tool_switcher_picks_tools() {
    let mut tool = CurrentTool::Terraform;
    tool_switcher_system(true, false, &mut tool);
    assert_eq!(tool, CurrentTool::DragFace(DragFaceState::SelectionReady));
    tool_switcher_system(false, true, &mut tool);
    assert_eq!(tool, CurrentTool::Terraform);
    tool_switcher_system(false, false, &mut tool);
    assert_eq!(tool, CurrentTool::Terraform);
}
