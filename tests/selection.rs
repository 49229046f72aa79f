use feldspar_editor::cursor::{ButtonInput, MouseInput, VoxelCursor, VoxelCursorRayImpact, VoxelCursorStates, VoxelCursorButtonState};
use feldspar_editor::selection::{
    selection_control_system, selection_corners_are_compatible, selection_default_input_map,
    selection_hint_quad, SelectionEvents, SelectionState,
};
use feldspar_editor::voxel::{Axis3, Extent3i, Point3i, SignedAxis3, VoxelFace};

fn face(x: i32, y: i32, z: i32, sign: i32, axis: Axis3) -> VoxelFace {
    VoxelFace { point: Point3i::new(x, y, z), normal: SignedAxis3 { sign, axis } }
}

#[test]
fn corners_in_one_plane_are_compatible() {
    let a = face(4, 0, 0, 1, Axis3::X);
    let b = face(4, 7, -3, 1, Axis3::X);
    assert!(selection_corners_are_compatible(&a, &b));
    assert!(selection_corners_are_compatible(&a, &a));
}

#[test]
fn corners_with_other_normal_or_plane_are_not() {
    let a = face(4, 0, 0, 1, Axis3::X);
    assert!(!selection_corners_are_compatible(&a, &face(4, 0, 0, -1, Axis3::X)));
    assert!(!selection_corners_are_compatible(&a, &face(4, 0, 0, 1, Axis3::Y)));
    assert!(!selection_corners_are_compatible(&a, &face(5, 0, 0, 1, Axis3::X)));
}

#[test]
fn two_compatible_clicks_select_a_quad() {
    let a = face(0, 0, 0, 1, Axis3::Y);
    let b = face(2, 0, -2, 1, Axis3::Y);
    let mut state = SelectionState::SelectingFirstCorner;
    selection_control_system(&mut state, &vec![SelectionEvents::SelectFirstCorner(a)]);
    assert_eq!(state, SelectionState::SelectingSecondCorner { first_corner: a, valid_hover: Some(a) });
    selection_control_system(&mut state, &vec![SelectionEvents::HoverMove(b), SelectionEvents::SelectSecondCorner(b)]);
    assert_eq!(
        state,
        SelectionState::SelectionReady {
            quad_extent: Extent3i::from_min_and_shape(Point3i::new(0, 0, -2), Point3i::new(3, 1, 3)),
            normal: SignedAxis3 { sign: 1, axis: Axis3::Y },
        }
    );
}

#[test]
fn incompatible_hover_is_ignored_and_click_cancels() {
    let a = face(0, 0, 0, 1, Axis3::Y);
    let c = face(2, 1, 2, 1, Axis3::Y);
    let mut state = SelectionState::SelectingSecondCorner { first_corner: a, valid_hover: Some(a) };
    selection_control_system(&mut state, &vec![SelectionEvents::HoverMove(c)]);
    assert_eq!(state, SelectionState::SelectingSecondCorner { first_corner: a, valid_hover: Some(a) });
    selection_control_system(&mut state, &vec![SelectionEvents::SelectSecondCorner(c)]);
    assert_eq!(state, SelectionState::SelectingFirstCorner);
}

#[test]
fn input_map_raises_hover_and_second_corner() {
    let a = face(0, 0, 0, 1, Axis3::Y);
    let b = face(1, 0, 1, 1, Axis3::Y);
    let state = SelectionState::SelectingSecondCorner { first_corner: a, valid_hover: Some(a) };
    let up = ButtonInput { pressed: false, just_pressed: false, just_released: false };
    let released = ButtonInput { pressed: false, just_pressed: false, just_released: true };
    let cursor = VoxelCursor {
        impact: VoxelCursorRayImpact { maybe_point: Some(b.point), normal: Some(b.normal) },
        mouse_input: MouseInput { left: released, middle: up, right: up },
        state: VoxelCursorStates {
            left_states: VoxelCursorButtonState { press_start_face: Some(b) },
            middle_states: VoxelCursorButtonState { press_start_face: None },
            right_states: VoxelCursorButtonState { press_start_face: None },
        },
    };
    assert_eq!(
        selection_default_input_map(&state, &cursor),
        vec![SelectionEvents::HoverMove(b), SelectionEvents::SelectSecondCorner(b)]
    );
    assert_eq!(selection_default_input_map(&SelectionState::SelectingFirstCorner, &cursor), vec![SelectionEvents::SelectFirstCorner(b)]);
    assert_eq!(selection_default_input_map(&SelectionState::Invisible, &cursor), vec![]);
}

#[test]
fn hint_quad_follows_the_selection() {
    let a = face(0, 0, 0, 1, Axis3::Y);
    let b = face(1, 0, 2, 1, Axis3::Y);
    let single = Extent3i::from_min_and_shape(b.point, Point3i::fill(1));
    assert_eq!(selection_hint_quad(&SelectionState::SelectingFirstCorner, Some(b)), Some((single, b.normal)));
    assert_eq!(selection_hint_quad(&SelectionState::SelectingFirstCorner, None), None);
    let second = SelectionState::SelectingSecondCorner { first_corner: a, valid_hover: Some(b) };
    assert_eq!(
        selection_hint_quad(&second, None),
        Some((Extent3i::from_min_and_shape(Point3i::new(0, 0, 0), Point3i::new(2, 1, 3)), a.normal))
    );
    assert_eq!(selection_hint_quad(&SelectionState::Invisible, Some(b)), None);
}

#[test]
fn extent_from_corners_spans_both() {
    let e = Extent3i::from_corners(Point3i::new(3, -1, 5), Point3i::new(1, 2, 5));
    assert_eq!(e, Extent3i::from_min_and_shape(Point3i::new(1, -1, 5), Point3i::new(3, 4, 1)));
    assert_eq!(e.max(), Point3i::new(3, 2, 5));
    assert!(e.contains(Point3i::new(2, 0, 5)));
    assert!(!e.contains(Point3i::new(2, 0, 6)));
}
