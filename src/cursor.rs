//! What the pointer is on: the picked voxel face, and per-button memory of where a press began,
//! from which clicks (press and release on one face) are told apart from drags.

use crate::voxel::{Point3i, SignedAxis3, VoxelFace};
use vstd::prelude::*;

verus! {

/// The closest voxel that the pointer ray touches this tick, if any.
#[derive(Clone, Copy, Debug, PartialEq, Eq, Structural)]
pub struct VoxelCursorRayImpact {
    /// The impacted voxel.
    pub maybe_point: Option<Point3i>,
    /// The outward normal of the impacted face, when the collision normal rounds to an axis.
    pub normal: Option<SignedAxis3>,
}

/// The face named by an impact, when it has both a voxel and an axis-aligned normal.
pub open spec fn impact_face(i: VoxelCursorRayImpact) -> Option<VoxelFace> {
    match (i.maybe_point, i.normal) {
        (Some(p), Some(n)) => Some(VoxelFace { point: p, normal: n }),
        _ => None,
    }
}

impl VoxelCursorRayImpact {
    /// No impact.
    pub fn none() -> (r: VoxelCursorRayImpact)
        ensures
            r.maybe_point.is_none() && r.normal.is_none(),
    {
        VoxelCursorRayImpact { maybe_point: None, normal: None }
    }

    /// The impact of this tick's ray cast: `hit` holds the voxel struck and the collision
    /// normal rounded to integers. A cast that hit nothing leaves no impact, never a stale one.
    pub fn from_cast(hit: Option<(Point3i, Point3i)>) -> (r: VoxelCursorRayImpact)
        ensures
            r.maybe_point == (match hit {
                Some((p, _)) => Some(p),
                None => None::<Point3i>,
            }),
            r.normal == (match hit {
                Some((_, n)) => SignedAxis3::from_vector_spec(n),
                None => None::<SignedAxis3>,
            }),
    {
        match hit {
            Some((p, n)) => VoxelCursorRayImpact { maybe_point: Some(p), normal: SignedAxis3::from_vector(n) },
            None => VoxelCursorRayImpact::none(),
        }
    }

    pub fn get(&self) -> (r: Option<(Point3i, SignedAxis3)>)
        ensures
            r == (match (self.maybe_point, self.normal) {
                (Some(p), Some(n)) => Some((p, n)),
                _ => None::<(Point3i, SignedAxis3)>,
            }),
    {
        match (self.maybe_point, self.normal) {
            (Some(p), Some(n)) => Some((p, n)),
            _ => None,
        }
    }

    pub fn get_voxel_face(&self) -> (r: Option<VoxelFace>)
        ensures
            r == impact_face(*self),
    {
        match self.get() {
            Some((p, n)) => Some(VoxelFace { point: p, normal: n }),
            None => None,
        }
    }
}

/// The mouse buttons that the tools read.
#[derive(Clone, Copy, Debug, PartialEq, Eq, Structural)]
pub enum MouseButton {
    Left,
    Middle,
    Right,
}

/// One button's state this tick.
#[derive(Clone, Copy, Debug, PartialEq, Eq, Structural)]
pub struct ButtonInput {
    /// The button is down.
    pub pressed: bool,
    /// The button went down this tick.
    pub just_pressed: bool,
    /// The button went up this tick.
    pub just_released: bool,
}

/// The state of the three mouse buttons this tick.
#[derive(Clone, Copy, Debug, PartialEq, Eq, Structural)]
pub struct MouseInput {
    pub left: ButtonInput,
    pub middle: ButtonInput,
    pub right: ButtonInput,
}

pub open spec fn button_spec(m: MouseInput, b: MouseButton) -> ButtonInput {
    match b {
        MouseButton::Left => m.left,
        MouseButton::Middle => m.middle,
        MouseButton::Right => m.right,
    }
}

impl MouseInput {
    pub fn button(&self, b: MouseButton) -> (r: ButtonInput)
        ensures
            r == button_spec(*self, b),
    {
        match b {
            MouseButton::Left => self.left,
            MouseButton::Middle => self.middle,
            MouseButton::Right => self.right,
        }
    }

    pub fn pressed(&self, b: MouseButton) -> (r: bool)
        ensures
            r == button_spec(*self, b).pressed,
    {
        self.button(b).pressed
    }

    pub fn just_pressed(&self, b: MouseButton) -> (r: bool)
        ensures
            r == button_spec(*self, b).just_pressed,
    {
        self.button(b).just_pressed
    }

    pub fn just_released(&self, b: MouseButton) -> (r: bool)
        ensures
            r == button_spec(*self, b).just_released,
    {
        self.button(b).just_released
    }
}

/// What is remembered of one button between ticks.
#[derive(Clone, Copy, Debug, PartialEq, Eq, Structural)]
pub struct VoxelCursorButtonState {
    /// While the button is held (and on the tick it is released), the face it went down on.
    pub press_start_face: Option<VoxelFace>,
}

/// What is remembered of each button between ticks.
#[derive(Clone, Copy, Debug, PartialEq, Eq, Structural)]
pub struct VoxelCursorStates {
    pub left_states: VoxelCursorButtonState,
    pub middle_states: VoxelCursorButtonState,
    pub right_states: VoxelCursorButtonState,
}

pub open spec fn button_state_spec(s: VoxelCursorStates, b: MouseButton) -> VoxelCursorButtonState {
    match b {
        MouseButton::Left => s.left_states,
        MouseButton::Middle => s.middle_states,
        MouseButton::Right => s.right_states,
    }
}

/// The press-start face of a button after this tick's input: latched when it goes down,
/// kept while it is held and on the tick it comes up, cleared after.
pub open spec fn next_press_start(
    prev: Option<VoxelFace>,
    input: ButtonInput,
    face: Option<VoxelFace>,
) -> Option<VoxelFace> {
    if input.just_pressed {
        face
    } else if input.pressed || input.just_released {
        prev
    } else {
        None
    }
}

/// What a button's release reports as a click: the face under the pointer when the button
/// comes up on the face it went down on, and nothing otherwise.
pub open spec fn clicked(input: ButtonInput, face: Option<VoxelFace>, start: Option<VoxelFace>) -> Option<VoxelFace> {
    if input.just_released && face == start {
        face
    } else {
        None
    }
}

/// A press on face `a` followed, on a later tick, by a release on `released_on` is a click on
/// `a` exactly when `released_on` is `a`; a release anywhere else is no click.
pub proof fn lemma_click_needs_same_face(
    prev: Option<VoxelFace>,
    press: ButtonInput,
    a: VoxelFace,
    release: ButtonInput,
    released_on: Option<VoxelFace>,
)
    requires
        press.just_pressed,
        !release.just_pressed,
        release.just_released,
    ensures
        clicked(release, released_on, next_press_start(next_press_start(prev, press, Some(a)), release, released_on))
            == if released_on == Some(a) {
            Some(a)
        } else {
            None::<VoxelFace>
        },
{
}

impl VoxelCursorStates {
    pub fn new() -> (r: VoxelCursorStates)
        ensures
            r.left_states.press_start_face.is_none(),
            r.middle_states.press_start_face.is_none(),
            r.right_states.press_start_face.is_none(),
    {
        let none = VoxelCursorButtonState { press_start_face: None };
        VoxelCursorStates { left_states: none, middle_states: none, right_states: none }
    }
}

fn next_button_state(
    prev: VoxelCursorButtonState,
    input: ButtonInput,
    face: Option<VoxelFace>,
) -> (r: VoxelCursorButtonState)
    ensures
        r.press_start_face == next_press_start(prev.press_start_face, input, face),
{
    if input.just_pressed {
        VoxelCursorButtonState { press_start_face: face }
    } else if input.pressed || input.just_released {
        prev
    } else {
        VoxelCursorButtonState { press_start_face: None }
    }
}

/// Remembers, for each button, the face the pointer was on when the button went down. Runs
/// each tick after the impact is computed and before the tools read the cursor.
pub fn voxel_clicking_system(
    voxel_cursor_impact: &VoxelCursorRayImpact,
    mouse_input: &MouseInput,
    state: &mut VoxelCursorStates,
)
    ensures
        forall|b: MouseButton| #[trigger] button_state_spec(*final(state), b).press_start_face
            == next_press_start(
                button_state_spec(*old(state), b).press_start_face,
                button_spec(*mouse_input, b),
                impact_face(*voxel_cursor_impact),
            ),
{
    let face = voxel_cursor_impact.get_voxel_face();
    state.left_states = next_button_state(state.left_states, mouse_input.left, face);
    state.middle_states = next_button_state(state.middle_states, mouse_input.middle, face);
    state.right_states = next_button_state(state.right_states, mouse_input.right, face);
}

/// The pointer's impact, this tick's buttons and the remembered press-start faces, read
/// together.
#[derive(Clone, Copy, Debug, PartialEq, Eq, Structural)]
pub struct VoxelCursor {
    pub impact: VoxelCursorRayImpact,
    pub mouse_input: MouseInput,
    pub state: VoxelCursorStates,
}

impl VoxelCursor {
    /// The face under the pointer while `button` is down.
    pub fn voxel_pressed(&self, button: MouseButton) -> (r: Option<VoxelFace>)
        ensures
            r == (if button_spec(self.mouse_input, button).pressed {
                impact_face(self.impact)
            } else {
                None
            }),
    {
        if self.mouse_input.pressed(button) {
            self.voxel_face()
        } else {
            None
        }
    }

    /// The face under the pointer on the tick `button` went down.
    pub fn voxel_just_pressed(&self, button: MouseButton) -> (r: Option<VoxelFace>)
        ensures
            r == (if button_spec(self.mouse_input, button).just_pressed {
                impact_face(self.impact)
            } else {
                None
            }),
    {
        if self.mouse_input.just_pressed(button) {
            self.voxel_face()
        } else {
            None
        }
    }

    /// The face under the pointer on the tick `button` went up.
    pub fn voxel_just_released(&self, button: MouseButton) -> (r: Option<VoxelFace>)
        ensures
            r == (if button_spec(self.mouse_input, button).just_released {
                impact_face(self.impact)
            } else {
                None
            }),
    {
        if self.mouse_input.just_released(button) {
            self.voxel_face()
        } else {
            None
        }
    }

    /// The face `button` went down on, while it is held.
    pub fn press_start_face(&self, button: MouseButton) -> (r: Option<VoxelFace>)
        ensures
            r == button_state_spec(self.state, button).press_start_face,
    {
        self.state_for_button(button).press_start_face
    }

    /// The face under the pointer when `button` went up on the same face it went down on;
    /// `None` when it went up elsewhere, or did not go up this tick.
    pub fn voxel_just_clicked(&self, button: MouseButton) -> (r: Option<VoxelFace>)
        ensures
            r == clicked(
                button_spec(self.mouse_input, button),
                impact_face(self.impact),
                button_state_spec(self.state, button).press_start_face,
            ),
    {
        let just_released = self.voxel_just_released(button);
        if just_released.is_some() && just_released == self.state_for_button(button).press_start_face {
            just_released
        } else {
            None
        }
    }

    /// The face the pointer is on now.
    pub fn voxel_face(&self) -> (r: Option<VoxelFace>)
        ensures
            r == impact_face(self.impact),
    {
        self.impact.get_voxel_face()
    }

    fn state_for_button(&self, button: MouseButton) -> (r: VoxelCursorButtonState)
        ensures
            r == button_state_spec(self.state, button),
    {
        match button {
            MouseButton::Left => self.state.left_states,
            MouseButton::Middle => self.state.middle_states,
            MouseButton::Right => self.state.right_states,
        }
    }
}

} // verus!
