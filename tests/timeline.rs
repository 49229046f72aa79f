use feldspar_editor::chunk_map::{chunk_key_for_point, ChunkMap};
use feldspar_editor::editor::{SnapshottingVoxelEditor, VoxelEdit};
use feldspar_editor::tools::undo_system;
use feldspar_editor::voxel::{Extent3i, Point3i, Voxel};

fn ambient() -> Voxel {
    Voxel { voxel_type: 0, distance: 127 }
}

fn samples() -> Vec<Point3i> {
    vec![
        Point3i::new(0, 0, 0),
        Point3i::new(3, 3, 3),
        Point3i::new(3, 2, 2),
        Point3i::new(17, 2, 2),
        Point3i::new(21, 2, 2),
        Point3i::new(22, 2, 2),
        Point3i::new(-1, 0, 0),
        Point3i::new(30, 30, 30),
    ]
}

fn read(editor: &SnapshottingVoxelEditor) -> Vec<Voxel> {
    samples().into_iter().map(|p| editor.get_voxel(p)).collect()
}

fn two_edits() -> SnapshottingVoxelEditor {
    let mut editor = SnapshottingVoxelEditor::new(ChunkMap::new(16));
    editor.edit_extent_and_touch_neighbors(
        Extent3i::from_min_and_shape(Point3i::new(0, 0, 0), Point3i::fill(4)),
        VoxelEdit::Fill(Voxel { voxel_type: 2, distance: -127 }),
    );
    editor.finish_edit();
    editor.edit_extent_and_touch_neighbors(
        Extent3i::from_min_and_shape(Point3i::new(2, 2, 2), Point3i::new(20, 1, 1)),
        VoxelEdit::Fill(Voxel { voxel_type: 3, distance: -50 }),
    );
    editor.finish_edit();
    editor
}

#[test]
fn edits_write_their_extent_only() {
    let editor = two_edits();
    let solid = Voxel { voxel_type: 2, distance: -127 };
    let bar = Voxel { voxel_type: 3, distance: -50 };
    assert_eq!(read(&editor), vec![solid, solid, bar, bar, bar, ambient(), ambient(), ambient()]);
}

#[test]
fn undo_then_redo_restores_every_voxel() {
    let mut editor = two_edits();
    let after_edits = read(&editor);
    editor.undo();
    editor.undo();
    assert!(read(&editor).iter().all(|v| *v == ambient()));
    editor.redo();
    editor.redo();
    assert_eq!(read(&editor), after_edits);
}

#[test]
fn undo_one_edit_restores_the_previous_state() {
    let mut editor = two_edits();
    editor.undo();
    let solid = Voxel { voxel_type: 2, distance: -127 };
    // (3, 2, 2) lies in both edits: it goes back to the first one's value.
    assert_eq!(read(&editor), vec![solid, solid, solid, ambient(), ambient(), ambient(), ambient(), ambient()]);
}

#[test]
fn undo_on_empty_stack_does_nothing() {
    let mut editor = SnapshottingVoxelEditor::new(ChunkMap::new(16));
    editor.undo();
    editor.redo();
    assert!(read(&editor).iter().all(|v| *v == ambient()));
}

#[test]
fn new_edit_clears_redo() {
    let mut editor = two_edits();
    editor.undo();
    editor.edit_extent_and_touch_neighbors(
        Extent3i::from_min_and_shape(Point3i::new(30, 30, 30), Point3i::fill(1)),
        VoxelEdit::Fill(Voxel { voxel_type: 5, distance: -1 }),
    );
    editor.finish_edit();
    editor.redo();
    assert_eq!(editor.get_voxel(Point3i::new(17, 2, 2)), ambient());
    assert_eq!(editor.get_voxel(Point3i::new(30, 30, 30)), Voxel { voxel_type: 5, distance: -1 });
}

#[test]
fn edits_between_finishes_undo_as_one_unit() {
    let mut editor = SnapshottingVoxelEditor::new(ChunkMap::new(16));
    for x in 0..3 {
        editor.edit_extent_and_touch_neighbors(
            Extent3i::from_min_and_shape(Point3i::new(x, 0, 0), Point3i::fill(1)),
            VoxelEdit::Fill(Voxel { voxel_type: 1, distance: -10 }),
        );
    }
    editor.finish_edit();
    editor.undo();
    for x in 0..3 {
        assert_eq!(editor.get_voxel(Point3i::new(x, 0, 0)), ambient());
    }
}

#[test]
fn undo_system_reads_keys() {
    let mut editor = two_edits();
    let after_edits = read(&editor);
    undo_system(&mut editor, true, false);
    assert_eq!(editor.get_voxel(Point3i::new(17, 2, 2)), ambient());
    undo_system(&mut editor, false, true);
    assert_eq!(read(&editor), after_edits);
    undo_system(&mut editor, true, true);
    assert_eq!(read(&editor), after_edits);
}

#[test]
fn chunk_keys_round_down() {
    assert_eq!(chunk_key_for_point(Point3i::new(-1, 0, 17), 16), Point3i::new(-16, 0, 16));
    assert_eq!(chunk_key_for_point(Point3i::new(-16, 15, -17), 16), Point3i::new(-16, 0, -32));
}

#[test]
fn chunk_map_reads_ambient_until_written() {
    let mut map = ChunkMap::new(8);
    let p = Point3i::new(-3, 9, 4);
    assert_eq!(map.get_voxel(p), ambient());
    assert!(!map.contains_chunk(Point3i::new(-8, 8, 0)));
    map.set_voxel(p, Voxel { voxel_type: 7, distance: -3 });
    assert!(map.contains_chunk(Point3i::new(-8, 8, 0)));
    assert_eq!(map.get_voxel(p), Voxel { voxel_type: 7, distance: -3 });
    assert_eq!(map.get_voxel(Point3i::new(-4, 9, 4)), ambient());
    assert_eq!(map.chunk_or_ambient(Point3i::new(0, 0, 0)).len(), 512);
}

#[test]
fn edits_mark_their_chunks_and_neighbors_dirty() {
    let mut editor = SnapshottingVoxelEditor::new(ChunkMap::new(16));
    editor.edit_extent_and_touch_neighbors(
        Extent3i::from_min_and_shape(Point3i::new(0, 0, 0), Point3i::fill(4)),
        VoxelEdit::Fill(Voxel { voxel_type: 2, distance: -127 }),
    );
    let mut dirty = editor.take_dirty_chunks();
    dirty.sort_by_key(|k| (k.x, k.y, k.z));
    let mut expected = Vec::new();
    for x in [-16, 0] {
        for y in [-16, 0] {
            for z in [-16, 0] {
                expected.push(Point3i::new(x, y, z));
            }
        }
    }
    assert_eq!(dirty, expected);
    assert!(editor.take_dirty_chunks().is_empty());
    editor.finish_edit();
    editor.undo();
    assert_eq!(editor.take_dirty_chunks().len(), 27);
}
