//! The terraform tool: brush strokes while a stroke key is held, one undo unit per stroke,
//! and keys to change the brush radius and material.

use crate::chunk_map::voxel_at;
use crate::editor::{edited_voxel, recorded, SnapshottingVoxelEditor, VoxelEdit};
use crate::terraform::{centered_extent, sphere_fits, sphere_in_bounds, TerraformOperation};
use crate::timeline::Snapshot;
use crate::tools::CurrentTool;
use crate::voxel::{Extent3i, Point3i, Voxel};
use vstd::prelude::*;

verus! {

/// The brush settings.
#[derive(Clone, Copy, Debug, PartialEq, Eq, Structural)]
pub struct Terraformer {
    pub edit_radius: u32,
    pub voxel_type: u8,
}

impl Terraformer {
    /// Radius 10, material 1.
    pub fn new() -> (r: Terraformer)
        ensures
            r.edit_radius == 10 && r.voxel_type == 1,
    {
        Terraformer { edit_radius: 10, voxel_type: 1 }
    }
}

impl Default for Terraformer {
    fn default() -> (r: Terraformer)
        ensures
            r.edit_radius == 10 && r.voxel_type == 1,
    {
        Terraformer::new()
    }
}

/// The inputs of the terraform tool.
#[derive(Clone, Copy, Debug, PartialEq, Eq, Structural)]
pub enum TerraformerEvents {
    ChangeEditRadius(i8),
    ChangeVoxelType(u8),
    MakeSolid,
    RemoveSolid,
    FinishEdit,
}

/// The keys that drive the terraform tool this tick.
#[derive(Clone, Copy, Debug, PartialEq, Eq, Structural)]
pub struct TerraformerKeys {
    pub grow_just_pressed: bool,
    pub shrink_just_pressed: bool,
    pub material1_just_pressed: bool,
    pub material2_just_pressed: bool,
    pub material3_just_pressed: bool,
    pub material4_just_pressed: bool,
    pub make_solid_pressed: bool,
    pub remove_solid_pressed: bool,
    pub make_solid_just_released: bool,
    pub remove_solid_just_released: bool,
}

/// The events raised by this tick's keys: a radius change (grow before shrink), a material
/// change (the lowest key pressed), a stroke while a stroke key is held (adding before
/// removing), and the end of the stroke when a stroke key comes up.
pub open spec fn terraformer_input_events(k: TerraformerKeys) -> Seq<TerraformerEvents> {
    let radius = if k.grow_just_pressed {
        seq![TerraformerEvents::ChangeEditRadius(1)]
    } else if k.shrink_just_pressed {
        seq![TerraformerEvents::ChangeEditRadius(-1i8)]
    } else {
        Seq::empty()
    };
    let material = if k.material1_just_pressed {
        seq![TerraformerEvents::ChangeVoxelType(1)]
    } else if k.material2_just_pressed {
        seq![TerraformerEvents::ChangeVoxelType(2)]
    } else if k.material3_just_pressed {
        seq![TerraformerEvents::ChangeVoxelType(3)]
    } else if k.material4_just_pressed {
        seq![TerraformerEvents::ChangeVoxelType(4)]
    } else {
        Seq::empty()
    };
    let stroke = if k.make_solid_pressed {
        seq![TerraformerEvents::MakeSolid]
    } else if k.remove_solid_pressed {
        seq![TerraformerEvents::RemoveSolid]
    } else {
        Seq::empty()
    };
    let finish = if k.make_solid_just_released || k.remove_solid_just_released {
        seq![TerraformerEvents::FinishEdit]
    } else {
        Seq::empty()
    };
    radius + material + stroke + finish
}

/// Turns this tick's keys into terraform events.
pub fn terraformer_default_input_map(keys: &TerraformerKeys) -> (r: Vec<TerraformerEvents>)
    ensures
        r@ == terraformer_input_events(*keys),
{
    let mut events: Vec<TerraformerEvents> = Vec::new();
    if keys.grow_just_pressed {
        events.push(TerraformerEvents::ChangeEditRadius(1));
    } else if keys.shrink_just_pressed {
        events.push(TerraformerEvents::ChangeEditRadius(-1));
    }
    let ghost after_radius = events@;
    if keys.material1_just_pressed {
        events.push(TerraformerEvents::ChangeVoxelType(1));
    } else if keys.material2_just_pressed {
        events.push(TerraformerEvents::ChangeVoxelType(2));
    } else if keys.material3_just_pressed {
        events.push(TerraformerEvents::ChangeVoxelType(3));
    } else if keys.material4_just_pressed {
        events.push(TerraformerEvents::ChangeVoxelType(4));
    }
    let ghost after_material = events@;
    if keys.make_solid_pressed {
        events.push(TerraformerEvents::MakeSolid);
    } else if keys.remove_solid_pressed {
        events.push(TerraformerEvents::RemoveSolid);
    }
    let ghost after_stroke = events@;
    if keys.make_solid_just_released || keys.remove_solid_just_released {
        events.push(TerraformerEvents::FinishEdit);
    }
    assert(events@ =~= terraformer_input_events(*keys));
    events
}

/// The radius after a change of `delta`: never below 1.
pub open spec fn changed_radius(r: u32, delta: i8) -> u32 {
    let n = r + delta;
    if n < 1 {
        1
    } else if n > u32::MAX {
        u32::MAX
    } else {
        n as u32
    }
}

/// The brush settings after one event.
pub open spec fn terraformer_step(t: Terraformer, ev: TerraformerEvents) -> Terraformer {
    match ev {
        TerraformerEvents::ChangeEditRadius(d) => Terraformer { edit_radius: changed_radius(t.edit_radius, d), ..t },
        TerraformerEvents::ChangeVoxelType(v) => Terraformer { voxel_type: v, ..t },
        _ => t,
    }
}

/// The brush settings after a run of events, in order.
pub open spec fn terraformer_after(t: Terraformer, evs: Seq<TerraformerEvents>) -> Terraformer
    decreases evs.len(),
{
    if evs.len() == 0 {
        t
    } else {
        terraformer_step(terraformer_after(t, evs.drop_last()), evs.last())
    }
}

/// Whether the events hold a stroke.
pub open spec fn has_stroke(evs: Seq<TerraformerEvents>) -> bool {
    exists|i: int| 0 <= i < evs.len() && (#[trigger] evs[i] == TerraformerEvents::MakeSolid || evs[i] == TerraformerEvents::RemoveSolid)
}

/// The edit of one stroke of `operation`: adding strokes paint `voxel_type`, removing strokes
/// empty.
pub open spec fn stroke_edit(operation: TerraformOperation, center: Point3i, radius: u32, voxel_type: u8) -> VoxelEdit {
    VoxelEdit::Terraform {
        operation,
        center,
        radius,
        voxel_type: match operation {
            TerraformOperation::MakeSolid => voxel_type,
            TerraformOperation::RemoveSolid => 0,
        },
    }
}

/// What one event does to the editor, with brush settings `t` and the brush centered on
/// `edit_center`: a stroke that fits in the world changes the voxels of its cube and records
/// its chunks in the edit being built, a finish closes the edit as one undo unit, and anything
/// else leaves the editor alone.
pub open spec fn terraform_effect(
    t: Terraformer,
    edit_center: Point3i,
    ed0: SnapshottingVoxelEditor,
    ed1: SnapshottingVoxelEditor,
    event: TerraformerEvents,
) -> bool {
    let r = t.edit_radius;
    let ext = Extent3i {
        minimum: Point3i { x: (edit_center.x - r) as i32, y: (edit_center.y - r) as i32, z: (edit_center.z - r) as i32 },
        shape: Point3i { x: (2 * r + 1) as i32, y: (2 * r + 1) as i32, z: (2 * r + 1) as i32 },
    };
    let op = match event {
        TerraformerEvents::RemoveSolid => TerraformOperation::RemoveSolid,
        _ => TerraformOperation::MakeSolid,
    };
    match event {
        TerraformerEvents::MakeSolid | TerraformerEvents::RemoveSolid => if sphere_in_bounds(edit_center, r as int) {
            &&& ed1.undo_spec() == ed0.undo_spec() && ed1.redo_spec() == ed0.redo_spec()
            &&& ed1.committed() == ed0.committed()
            &&& ed1.current_spec() == recorded(ed0.current_spec(), ed0.volume(), ext, ed0.edge_spec())
            &&& forall|q: Point3i| #[trigger] q.in_bounds() ==> voxel_at(ed1.volume(), ed1.edge_spec(), q)
                == if ext.contains_spec(q) {
                    edited_voxel(stroke_edit(op, edit_center, r, t.voxel_type), q, voxel_at(ed0.volume(), ed0.edge_spec(), q))
                } else {
                    voxel_at(ed0.volume(), ed0.edge_spec(), q)
                }
        } else {
            ed1 == ed0
        },
        TerraformerEvents::FinishEdit => {
            &&& ed1.volume() == ed0.volume()
            &&& ed1.committed() == ed0.volume()
            &&& ed1.undo_spec() == ed0.undo_spec().push(ed0.current_spec())
            &&& ed1.redo_spec() == Seq::<Snapshot>::empty()
            &&& ed1.current_spec() == Map::<Point3i, Seq<Voxel>>::empty()
        },
        _ => ed1 == ed0,
    }
}

/// Applies one stroke of the brush to the sphere around `center`.
fn edit_sphere(
    operation: TerraformOperation,
    center: Point3i,
    radius: u32,
    voxel_type: u8,
    voxel_editor: &mut SnapshottingVoxelEditor,
)
    requires
        old(voxel_editor).wf(),
        sphere_in_bounds(center, radius as int),
    ensures
        final(voxel_editor).wf(),
        final(voxel_editor).edge_spec() == old(voxel_editor).edge_spec(),
        final(voxel_editor).committed() == old(voxel_editor).committed(),
        final(voxel_editor).undo_spec() == old(voxel_editor).undo_spec(),
        final(voxel_editor).redo_spec() == old(voxel_editor).redo_spec(),
        ({
            let ext = Extent3i {
                minimum: Point3i { x: (center.x - radius) as i32, y: (center.y - radius) as i32, z: (center.z - radius) as i32 },
                shape: Point3i { x: (2 * radius + 1) as i32, y: (2 * radius + 1) as i32, z: (2 * radius + 1) as i32 },
            };
            let edit = stroke_edit(operation, center, radius, voxel_type);
            &&& final(voxel_editor).current_spec() == recorded(
                old(voxel_editor).current_spec(),
                old(voxel_editor).volume(),
                ext,
                old(voxel_editor).edge_spec(),
            )
            &&& forall|q: Point3i| #[trigger] q.in_bounds() ==> voxel_at(final(voxel_editor).volume(), final(voxel_editor).edge_spec(), q)
                == if ext.contains_spec(q) {
                    edited_voxel(edit, q, voxel_at(old(voxel_editor).volume(), old(voxel_editor).edge_spec(), q))
                } else {
                    voxel_at(old(voxel_editor).volume(), old(voxel_editor).edge_spec(), q)
                }
        }),
{
    let t = match operation {
        TerraformOperation::MakeSolid => voxel_type,
        TerraformOperation::RemoveSolid => 0,
    };
    let extent = centered_extent(center, radius);
    voxel_editor.edit_extent_and_touch_neighbors(
        extent,
        VoxelEdit::Terraform { operation, center, radius, voxel_type: t },
    );
}

/// Handles one terraform event with the brush centered on `edit_center`. A stroke whose
/// sphere would leave the bounds of the world does nothing.
pub fn terraformer_event(
    terraformer: &mut Terraformer,
    voxel_editor: &mut SnapshottingVoxelEditor,
    edit_center: Point3i,
    event: TerraformerEvents,
)
    requires
        old(voxel_editor).wf(),
    ensures
        final(voxel_editor).wf(),
        final(voxel_editor).edge_spec() == old(voxel_editor).edge_spec(),
        *final(terraformer) == terraformer_step(*old(terraformer), event),
        terraform_effect(*old(terraformer), edit_center, *old(voxel_editor), *final(voxel_editor), event),
{
    match event {
        TerraformerEvents::MakeSolid => {
            if sphere_fits(edit_center, terraformer.edit_radius) {
                edit_sphere(
                    TerraformOperation::MakeSolid,
                    edit_center,
                    terraformer.edit_radius,
                    terraformer.voxel_type,
                    voxel_editor,
                );
            }
        },
        TerraformerEvents::RemoveSolid => {
            if sphere_fits(edit_center, terraformer.edit_radius) {
                edit_sphere(
                    TerraformOperation::RemoveSolid,
                    edit_center,
                    terraformer.edit_radius,
                    0,
                    voxel_editor,
                );
            }
        },
        TerraformerEvents::FinishEdit => {
            voxel_editor.finish_edit();
        },
        TerraformerEvents::ChangeEditRadius(delta) => {
            let n = terraformer.edit_radius as i64 + delta as i64;
            terraformer.edit_radius = if n < 1 {
                1
            } else if n > u32::MAX as i64 {
                u32::MAX
            } else {
                n as u32
            };
        },
        TerraformerEvents::ChangeVoxelType(voxel_type) => {
            terraformer.voxel_type = voxel_type;
        },
    }
}

/// Handles this tick's terraform events while the terraform tool is active and the pointer
/// ray exists, with the brush centered on `edit_center`: the editor passes through one state
/// per event, each related to the one before by `terraform_effect`. Returns `None` when the
/// tool did not run; otherwise whether a stroke was made, in which case the brush's distance
/// from the camera stays pinned, and else re-tracks the picked surface.
pub fn terraformer_system(
    current_tool: &CurrentTool,
    terraformer: &mut Terraformer,
    voxel_editor: &mut SnapshottingVoxelEditor,
    edit_center: Option<Point3i>,
    events: &Vec<TerraformerEvents>,
) -> (lock_edit_dist_from_camera: Option<bool>)
    requires
        old(voxel_editor).wf(),
    ensures
        final(voxel_editor).wf(),
        final(voxel_editor).edge_spec() == old(voxel_editor).edge_spec(),
        if *current_tool == CurrentTool::Terraform && edit_center.is_some() {
            &&& *final(terraformer) == terraformer_after(*old(terraformer), events@)
            &&& lock_edit_dist_from_camera == Some(has_stroke(events@))
            &&& exists|eds: Seq<SnapshottingVoxelEditor>| {
                &&& eds.len() == events@.len() + 1
                &&& eds[0] == *old(voxel_editor)
                &&& eds.last() == *final(voxel_editor)
                &&& forall|i: int| 0 <= i < events@.len() ==> terraform_effect(
                    #[trigger] terraformer_after(*old(terraformer), events@.subrange(0, i)),
                    edit_center.unwrap(),
                    eds[i],
                    eds[i + 1],
                    events@[i],
                )
            }
        } else {
            &&& *final(terraformer) == *old(terraformer)
            &&& *final(voxel_editor) == *old(voxel_editor)
            &&& lock_edit_dist_from_camera.is_none()
        },
{
    if *current_tool != CurrentTool::Terraform {
        return None;
    }
    let center = match edit_center {
        Some(c) => c,
        None => return None,
    };
    let mut lock = false;
    let mut i: usize = 0;
    let ghost mut eds: Seq<SnapshottingVoxelEditor> = seq![*voxel_editor];
    while i < events.len()
        invariant
            0 <= i <= events.len(),
            edit_center == Some(center),
            voxel_editor.wf(),
            voxel_editor.edge_spec() == old(voxel_editor).edge_spec(),
            *terraformer == terraformer_after(*old(terraformer), events@.subrange(0, i as int)),
            lock == has_stroke(events@.subrange(0, i as int)),
            eds.len() == i + 1,
            eds[0] == *old(voxel_editor),
            eds.last() == *voxel_editor,
            forall|j: int| 0 <= j < i ==> terraform_effect(
                #[trigger] terraformer_after(*old(terraformer), events@.subrange(0, j)),
                center,
                eds[j],
                eds[j + 1],
                events@[j],
            ),
        decreases events.len() - i,
    {
        let ghost before = events@.subrange(0, i as int);
        let event = events[i];
        if event == TerraformerEvents::MakeSolid || event == TerraformerEvents::RemoveSolid {
            lock = true;
        }
        terraformer_event(terraformer, voxel_editor, center, event);
        let ghost after = events@.subrange(0, i + 1);
        proof {
            let ghost prev = eds;
            eds = eds.push(*voxel_editor);
            assert forall|j: int| 0 <= j < i + 1 implies terraform_effect(
                #[trigger] terraformer_after(*old(terraformer), events@.subrange(0, j)),
                center,
                eds[j],
                eds[j + 1],
                events@[j],
            ) by {
                if j < i {
                    assert(eds[j] == prev[j] && eds[j + 1] == prev[j + 1]);
                }
            }
        }
        assert(after.drop_last() =~= before);
        assert(lock == has_stroke(after)) by {
            if has_stroke(after) && !(event == TerraformerEvents::MakeSolid || event == TerraformerEvents::RemoveSolid) {
                let j = choose|j: int| 0 <= j < after.len() && (#[trigger] after[j] == TerraformerEvents::MakeSolid || after[j] == TerraformerEvents::RemoveSolid);
                assert(before[j] == after[j]);
            }
            if has_stroke(before) {
                let j = choose|j: int| 0 <= j < before.len() && (#[trigger] before[j] == TerraformerEvents::MakeSolid || before[j] == TerraformerEvents::RemoveSolid);
                assert(after[j] == before[j]);
            }
            if event == TerraformerEvents::MakeSolid || event == TerraformerEvents::RemoveSolid {
                assert(after[i as int] == event);
            }
        }
        i = i + 1;
    }
    assert(events@.subrange(0, events.len() as int) =~= events@);
    Some(lock)
}

} // verus!
