use feldspar_editor::chunk_map::ChunkMap;
use feldspar_editor::database::{decode_current_version, encode_current_version, u64_from_be_slice, DbError};
use feldspar_editor::editor::SnapshottingVoxelEditor;
use feldspar_editor::terraform::{brush_strength_exec, centered_extent, terraform_voxel, TerraformOperation};
use feldspar_editor::terraformer::{
    terraformer_default_input_map, terraformer_system, Terraformer, TerraformerEvents, TerraformerKeys,
};
use feldspar_editor::tools::CurrentTool;
use feldspar_editor::voxel::{Extent3i, Point3i, Voxel};

#[test]
fn brush_strength_values() {
    assert_eq!(brush_strength_exec(0, 10), 20);
    assert_eq!(brush_strength_exec(1, 10), 18);
    assert_eq!(brush_strength_exec(2, 10), 17);
    assert_eq!(brush_strength_exec(25, 10), 10);
    assert_eq!(brush_strength_exec(100, 10), 0);
    assert_eq!(brush_strength_exec(101, 10), 0);
    // 20 * (1 - 1/40) = 19.5 rounds away from zero.
    assert_eq!(brush_strength_exec(1, 40), 20);
}

#[test]
fn repeated_adds_saturate_at_minus_128() {
    let c = Point3i::new(0, 0, 0);
    let mut v = Voxel { voxel_type: 0, distance: 127 };
    let mut seen_solid_type = false;
    for _ in 0..20 {
        v = terraform_voxel(TerraformOperation::MakeSolid, c, 10, 1, c, v);
        if v.distance < 0 {
            assert_eq!(v.voxel_type, 1);
            seen_solid_type = true;
        }
    }
    assert!(seen_solid_type);
    assert_eq!(v, Voxel { voxel_type: 1, distance: -128 });
}

#[test]
fn repeated_removes_saturate_at_127() {
    let c = Point3i::new(0, 0, 0);
    let mut v = Voxel { voxel_type: 3, distance: -128 };
    for _ in 0..20 {
        v = terraform_voxel(TerraformOperation::RemoveSolid, c, 10, 0, c, v);
    }
    assert_eq!(v, Voxel { voxel_type: 0, distance: 127 });
}

#[test]
fn material_follows_sign_changes() {
    let c = Point3i::new(0, 0, 0);
    let p = Point3i::new(5, 0, 0);
    // Strength 10 at half the radius: 5 - 10 = -5 becomes solid with the brush material.
    let v = terraform_voxel(TerraformOperation::MakeSolid, c, 10, 4, p, Voxel { voxel_type: 0, distance: 5 });
    assert_eq!(v, Voxel { voxel_type: 4, distance: -5 });
    // 20 - 10 = 10 stays outside: material unchanged.
    let v = terraform_voxel(TerraformOperation::MakeSolid, c, 10, 4, p, Voxel { voxel_type: 0, distance: 20 });
    assert_eq!(v, Voxel { voxel_type: 0, distance: 10 });
    // Outside the sphere nothing changes.
    let far = Point3i::new(11, 0, 0);
    let v = terraform_voxel(TerraformOperation::RemoveSolid, c, 10, 0, far, Voxel { voxel_type: 2, distance: -5 });
    assert_eq!(v, Voxel { voxel_type: 2, distance: -5 });
}

#[test]
fn centered_extent_is_a_cube() {
    assert_eq!(
        centered_extent(Point3i::new(1, 2, 3), 2),
        Extent3i::from_min_and_shape(Point3i::new(-1, 0, 1), Point3i::fill(5))
    );
}

#[test]
fn stroke_through_the_system() {
    let mut editor = SnapshottingVoxelEditor::new(ChunkMap::new(16));
    let mut t = Terraformer::default();
    let c = Point3i::new(20, 20, 20);
    let lock = terraformer_system(&CurrentTool::Terraform, &mut t, &mut editor, Some(c), &vec![TerraformerEvents::MakeSolid]);
    assert_eq!(lock, Some(true));
    assert_eq!(editor.get_voxel(c), Voxel { voxel_type: 0, distance: 107 });
    assert_eq!(editor.get_voxel(Point3i::new(31, 20, 20)), Voxel { voxel_type: 0, distance: 127 });
    let lock = terraformer_system(&CurrentTool::Terraform, &mut t, &mut editor, Some(c), &vec![TerraformerEvents::FinishEdit]);
    assert_eq!(lock, Some(false));
    editor.undo();
    assert_eq!(editor.get_voxel(c), Voxel { voxel_type: 0, distance: 127 });
    let lock = terraformer_system(&CurrentTool::Slope, &mut t, &mut editor, Some(c), &vec![TerraformerEvents::MakeSolid]);
    assert_eq!(lock, None);
    assert_eq!(terraformer_system(&CurrentTool::Terraform, &mut t, &mut editor, None, &vec![TerraformerEvents::MakeSolid]), None);
}

#[test]
fn radius_never_drops_below_one() {
    let mut editor = SnapshottingVoxelEditor::new(ChunkMap::new(16));
    let mut t = Terraformer { edit_radius: 1, voxel_type: 1 };
    let c = Point3i::new(0, 0, 0);
    terraformer_system(&CurrentTool::Terraform, &mut t, &mut editor, Some(c), &vec![
        TerraformerEvents::ChangeEditRadius(-1),
        TerraformerEvents::ChangeVoxelType(3),
    ]);
    assert_eq!(t, Terraformer { edit_radius: 1, voxel_type: 3 });
    terraformer_system(&CurrentTool::Terraform, &mut t, &mut editor, Some(c), &vec![TerraformerEvents::ChangeEditRadius(1)]);
    assert_eq!(t.edit_radius, 2);
    assert_eq!(Terraformer::default(), Terraformer { edit_radius: 10, voxel_type: 1 });
}

#[test]
fn keys_become_events() {
    let keys = TerraformerKeys {
        grow_just_pressed: true,
        shrink_just_pressed: true,
        material1_just_pressed: false,
        material2_just_pressed: true,
        material3_just_pressed: true,
        material4_just_pressed: false,
        make_solid_pressed: false,
        remove_solid_pressed: true,
        make_solid_just_released: true,
        remove_solid_just_released: false,
    };
    assert_eq!(
        terraformer_default_input_map(&keys),
        vec![
            TerraformerEvents::ChangeEditRadius(1),
            TerraformerEvents::ChangeVoxelType(2),
            TerraformerEvents::RemoveSolid,
            TerraformerEvents::FinishEdit,
        ]
    );
}

#[test]
fn current_version_bytes() {
    assert_eq!(encode_current_version(0x0102030405060708), vec![1, 2, 3, 4, 5, 6, 7, 8]);
    assert_eq!(u64_from_be_slice(&[0, 0, 0, 0, 0, 0, 1, 0]), 256);
    let stored = encode_current_version(u64::MAX - 5);
    assert_eq!(decode_current_version(Some(&stored)), Ok(Some(u64::MAX - 5)));
    assert_eq!(decode_current_version(None), Ok(None));
    assert_eq!(decode_current_version(Some(&[1, 2, 3])), Err(DbError::MalformedCurrentVersion));
}
