use feldspar_editor::cursor::{
    voxel_clicking_system, ButtonInput, MouseButton, MouseInput, VoxelCursor, VoxelCursorRayImpact,
    VoxelCursorStates,
};
use feldspar_editor::voxel::{Axis3, Point3i, SignedAxis3, VoxelFace};

const UP: ButtonInput = ButtonInput { pressed: false, just_pressed: false, just_released: false };
const PRESS: ButtonInput = ButtonInput { pressed: true, just_pressed: true, just_released: false };
const RELEASE: ButtonInput = ButtonInput { pressed: false, just_pressed: false, just_released: true };

fn left(b: ButtonInput) -> MouseInput {
    MouseInput { left: b, middle: UP, right: UP }
}

fn impact_on(f: VoxelFace) -> VoxelCursorRayImpact {
    VoxelCursorRayImpact { maybe_point: Some(f.point), normal: Some(f.normal) }
}

fn face(x: i32, y: i32, z: i32) -> VoxelFace {
    VoxelFace { point: Point3i::new(x, y, z), normal: SignedAxis3 { sign: 1, axis: Axis3::Y } }
}

fn tick(states: &mut VoxelCursorStates, impact: VoxelCursorRayImpact, input: MouseInput) -> VoxelCursor {
    voxel_clicking_system(&impact, &input, states);
    VoxelCursor { impact, mouse_input: input, state: *states }
}

#[test]
fn press_and_release_on_one_face_is_a_click() {
    let a = face(1, 2, 3);
    let mut states = VoxelCursorStates::new();
    let c = tick(&mut states, impact_on(a), left(PRESS));
    assert_eq!(c.voxel_just_clicked(MouseButton::Left), None);
    assert_eq!(c.voxel_just_pressed(MouseButton::Left), Some(a));
    assert_eq!(c.press_start_face(MouseButton::Left), Some(a));
    let c = tick(&mut states, impact_on(a), left(RELEASE));
    assert_eq!(c.voxel_just_clicked(MouseButton::Left), Some(a));
    assert_eq!(c.voxel_just_released(MouseButton::Left), Some(a));
}

#[test]
fn release_on_another_face_is_no_click() {
    let a = face(1, 2, 3);
    let b = face(4, 2, 3);
    let mut states = VoxelCursorStates::new();
    tick(&mut states, impact_on(a), left(PRESS));
    let c = tick(&mut states, impact_on(b), left(RELEASE));
    assert_eq!(c.voxel_just_clicked(MouseButton::Left), None);
    assert_eq!(c.voxel_just_released(MouseButton::Left), Some(b));
}

#[test]
fn press_start_is_cleared_after_release() {
    let a = face(1, 2, 3);
    let mut states = VoxelCursorStates::new();
    tick(&mut states, impact_on(a), left(PRESS));
    let held = MouseInput { left: ButtonInput { pressed: true, just_pressed: false, just_released: false }, middle: UP, right: UP };
    let c = tick(&mut states, impact_on(face(9, 9, 9)), held);
    assert_eq!(c.press_start_face(MouseButton::Left), Some(a));
    assert_eq!(c.voxel_pressed(MouseButton::Left), Some(face(9, 9, 9)));
    tick(&mut states, impact_on(a), left(RELEASE));
    let c = tick(&mut states, impact_on(a), left(UP));
    assert_eq!(c.press_start_face(MouseButton::Left), None);
    assert_eq!(c.press_start_face(MouseButton::Right), None);
}

#[test]
fn no_impact_gives_no_face() {
    let imp = VoxelCursorRayImpact::from_cast(None);
    assert_eq!(imp.get_voxel_face(), None);
    let half = VoxelCursorRayImpact { maybe_point: Some(Point3i::new(0, 0, 0)), normal: None };
    assert_eq!(half.get(), None);
}

#[test]
fn impact_normal_rounds_to_an_axis() {
    let imp = VoxelCursorRayImpact::from_cast(Some((Point3i::new(5, 6, 7), Point3i::new(0, 0, -1))));
    assert_eq!(
        imp.get_voxel_face(),
        Some(VoxelFace { point: Point3i::new(5, 6, 7), normal: SignedAxis3 { sign: -1, axis: Axis3::Z } })
    );
    let diagonal = VoxelCursorRayImpact::from_cast(Some((Point3i::new(5, 6, 7), Point3i::new(1, 1, 0))));
    assert_eq!(diagonal.get_voxel_face(), None);
    assert_eq!(diagonal.maybe_point, Some(Point3i::new(5, 6, 7)));
}

#[test]
fn signed_axis_from_vector() {
    assert_eq!(SignedAxis3::from_vector(Point3i::new(1, 0, 0)), Some(SignedAxis3 { sign: 1, axis: Axis3::X }));
    assert_eq!(SignedAxis3::from_vector(Point3i::new(0, -1, 0)), Some(SignedAxis3 { sign: -1, axis: Axis3::Y }));
    assert_eq!(SignedAxis3::from_vector(Point3i::new(0, 0, 2)), None);
    assert_eq!(SignedAxis3::from_vector(Point3i::new(0, 0, 0)), None);
}
