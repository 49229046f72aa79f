//! Voxel edits routed through the timeline: before a chunk is first written within an edit,
//! its content is recorded, so that every finished edit can be undone exactly.

use crate::chunk_map::{
    chunk_key_for_point, chunk_key_of, chunk_or_ambient, lemma_set_voxel_frame,
    same_volume, valid_edge, voxel_at, ChunkMap,
};
use crate::terraform::{terraform_voxel, terraformed_voxel, TerraformOperation};
use crate::timeline::{redo_step, undo_step, EditTimeline, Snapshot};
use crate::voxel::{Extent3i, Point3i, Voxel, COORD_LIMIT};
use vstd::prelude::*;

verus! {

/// What an edit does to each voxel of its extent.
#[derive(Clone, Copy, Debug, PartialEq, Eq, Structural)]
pub enum VoxelEdit {
    /// Every voxel becomes this one.
    Fill(Voxel),
    /// One terraform brush stroke.
    Terraform { operation: TerraformOperation, center: Point3i, radius: u32, voxel_type: u8 },
}

/// The new value of the voxel `v` at `p`.
pub open spec fn edited_voxel(edit: VoxelEdit, p: Point3i, v: Voxel) -> Voxel {
    match edit {
        VoxelEdit::Fill(w) => w,
        VoxelEdit::Terraform { operation, center, radius, voxel_type } => terraformed_voxel(
            operation,
            center,
            radius as int,
            voxel_type,
            p,
            v,
        ),
    }
}

pub open spec fn edit_in_bounds(edit: VoxelEdit) -> bool {
    match edit {
        VoxelEdit::Fill(_) => true,
        VoxelEdit::Terraform { center, .. } => center.in_bounds(),
    }
}

fn edit_voxel(edit: VoxelEdit, p: Point3i, v: Voxel) -> (r: Voxel)
    requires
        edit_in_bounds(edit),
        p.in_bounds(),
    ensures
        r == edited_voxel(edit, p, v),
{
    match edit {
        VoxelEdit::Fill(w) => w,
        VoxelEdit::Terraform { operation, center, radius, voxel_type } => terraform_voxel(
            operation,
            center,
            radius,
            voxel_type,
            p,
            v,
        ),
    }
}

/// `q` lies in `ext` and comes before `(x, y, z)` in z-major, then y, then x order.
pub open spec fn visited(ext: Extent3i, q: Point3i, x: int, y: int, z: int) -> bool {
    ext.contains_spec(q) && (q.z < z || (q.z == z && (q.y < y || (q.y == y && q.x < x))))
}

/// Whether chunk `k` holds some point of `ext`.
pub open spec fn touches_chunk(ext: Extent3i, k: Point3i, e: int) -> bool {
    exists|q: Point3i| ext.contains_spec(q) && #[trigger] chunk_key_of(q, e) == k
}

/// Whether chunk `k` holds some point visited so far.
spec fn visited_chunk(ext: Extent3i, k: Point3i, e: int, x: int, y: int, z: int) -> bool {
    exists|q: Point3i| visited(ext, q, x, y, z) && #[trigger] chunk_key_of(q, e) == k
}

/// The content recorded when chunks are added to an edit: chunks already held keep theirs,
/// and each chunk of `ext` not held yet gets its present content in `src`.
pub open spec fn recorded(cur: Snapshot, src: Snapshot, ext: Extent3i, e: int) -> Snapshot {
    Map::new(
        |k: Point3i| cur.contains_key(k) || touches_chunk(ext, k, e),
        |k: Point3i| if cur.contains_key(k) { cur[k] } else { chunk_or_ambient(src, k, e) },
    )
}

spec fn recorded_so_far(cur: Snapshot, src: Snapshot, ext: Extent3i, e: int, x: int, y: int, z: int) -> Snapshot {
    Map::new(
        |k: Point3i| cur.contains_key(k) || visited_chunk(ext, k, e, x, y, z),
        |k: Point3i| if cur.contains_key(k) { cur[k] } else { chunk_or_ambient(src, k, e) },
    )
}

impl EditTimeline {
    /// Records in the edit being built every chunk that holds a point of `extent`, with its
    /// present content in `src`, unless the edit already holds it.
    pub fn add_extent_to_current_edit(&mut self, extent: Extent3i, src: &ChunkMap)
        requires
            old(self).wf(),
            src.wf(),
            src.edge_spec() == old(self).edge_spec(),
            extent.in_bounds(),
        ensures
            final(self).wf(),
            final(self).edge_spec() == old(self).edge_spec(),
            final(self).undo_spec() == old(self).undo_spec(),
            final(self).redo_spec() == old(self).redo_spec(),
            final(self).current_spec() == recorded(old(self).current_spec(), src@, extent, src.edge_spec()),
    {
        let ghost cur0 = self.current_spec();
        let ghost e = src.edge_spec();
        proof {
            src.lemma_wf();
        }
        let (x0, y0, z0) = (extent.minimum.x, extent.minimum.y, extent.minimum.z);
        let x1 = x0 + extent.shape.x;
        let y1 = y0 + extent.shape.y;
        let z1 = z0 + extent.shape.z;
        let mut z = z0;
        assert(recorded_so_far(cur0, src@, extent, e, x0 as int, y0 as int, z0 as int) =~= cur0);
        while z < z1
            invariant
                z0 <= z <= z1,
                x1 == x0 + extent.shape.x && y1 == y0 + extent.shape.y && z1 == z0 + extent.shape.z,
                x0 == extent.minimum.x && y0 == extent.minimum.y && z0 == extent.minimum.z,
                extent.in_bounds(),
                src.wf(),
                valid_edge(e),
                e == src.edge_spec(),
                self.wf(),
                self.edge_spec() == e,
                self.undo_spec() == old(self).undo_spec(),
                self.redo_spec() == old(self).redo_spec(),
                self.current_spec() == recorded_so_far(cur0, src@, extent, e, x0 as int, y0 as int, z as int),
            decreases z1 - z,
        {
            let mut y = y0;
            while y < y1
                invariant
                    z0 <= z < z1,
                    y0 <= y <= y1,
                    x1 == x0 + extent.shape.x && y1 == y0 + extent.shape.y && z1 == z0 + extent.shape.z,
                    x0 == extent.minimum.x && y0 == extent.minimum.y && z0 == extent.minimum.z,
                    extent.in_bounds(),
                    src.wf(),
                    valid_edge(e),
                    e == src.edge_spec(),
                    self.wf(),
                    self.edge_spec() == e,
                    self.undo_spec() == old(self).undo_spec(),
                    self.redo_spec() == old(self).redo_spec(),
                    self.current_spec() == recorded_so_far(cur0, src@, extent, e, x0 as int, y as int, z as int),
                decreases y1 - y,
            {
                let mut x = x0;
                while x < x1
                    invariant
                        z0 <= z < z1,
                        y0 <= y < y1,
                        x0 <= x <= x1,
                        x1 == x0 + extent.shape.x && y1 == y0 + extent.shape.y && z1 == z0 + extent.shape.z,
                        x0 == extent.minimum.x && y0 == extent.minimum.y && z0 == extent.minimum.z,
                        extent.in_bounds(),
                        src.wf(),
                        valid_edge(e),
                        e == src.edge_spec(),
                        self.wf(),
                        self.edge_spec() == e,
                        self.undo_spec() == old(self).undo_spec(),
                        self.redo_spec() == old(self).redo_spec(),
                        self.current_spec() == recorded_so_far(cur0, src@, extent, e, x as int, y as int, z as int),
                    decreases x1 - x,
                {
                    let p = Point3i { x, y, z };
                    let key = chunk_key_for_point(p, src.edge());
                    let ghost before = self.current_spec();
                    self.add_chunk_to_current_edit(key, src);
                    assert(self.current_spec() =~= recorded_so_far(cur0, src@, extent, e, x + 1, y as int, z as int)) by {
                        assert(visited(extent, p, x + 1, y as int, z as int));
                        assert forall|k: Point3i| visited_chunk(extent, k, e, x + 1, y as int, z as int)
                            <==> (visited_chunk(extent, k, e, x as int, y as int, z as int) || k == key) by {
                            if visited_chunk(extent, k, e, x + 1, y as int, z as int) {
                                let q = choose|q: Point3i| visited(extent, q, x + 1, y as int, z as int) && #[trigger] chunk_key_of(q, e) == k;
                                if q != p {
                                    assert(visited(extent, q, x as int, y as int, z as int));
                                }
                            }
                            if visited_chunk(extent, k, e, x as int, y as int, z as int) {
                                let q = choose|q: Point3i| visited(extent, q, x as int, y as int, z as int) && #[trigger] chunk_key_of(q, e) == k;
                                assert(visited(extent, q, x + 1, y as int, z as int));
                            }
                        }
                    }
                    x = x + 1;
                }
                assert(recorded_so_far(cur0, src@, extent, e, x1 as int, y as int, z as int)
                    =~= recorded_so_far(cur0, src@, extent, e, x0 as int, y + 1, z as int)) by {
                    assert forall|k: Point3i| visited_chunk(extent, k, e, x1 as int, y as int, z as int)
                        <==> visited_chunk(extent, k, e, x0 as int, y + 1, z as int) by {
                        if visited_chunk(extent, k, e, x1 as int, y as int, z as int) {
                            let q = choose|q: Point3i| visited(extent, q, x1 as int, y as int, z as int) && #[trigger] chunk_key_of(q, e) == k;
                            assert(visited(extent, q, x0 as int, y + 1, z as int));
                        }
                        if visited_chunk(extent, k, e, x0 as int, y + 1, z as int) {
                            let q = choose|q: Point3i| visited(extent, q, x0 as int, y + 1, z as int) && #[trigger] chunk_key_of(q, e) == k;
                            assert(visited(extent, q, x1 as int, y as int, z as int));
                        }
                    }
                }
                y = y + 1;
            }
            assert(recorded_so_far(cur0, src@, extent, e, x0 as int, y1 as int, z as int)
                =~= recorded_so_far(cur0, src@, extent, e, x0 as int, y0 as int, z + 1)) by {
                assert forall|k: Point3i| visited_chunk(extent, k, e, x0 as int, y1 as int, z as int)
                    <==> visited_chunk(extent, k, e, x0 as int, y0 as int, z + 1) by {
                    if visited_chunk(extent, k, e, x0 as int, y1 as int, z as int) {
                        let q = choose|q: Point3i| visited(extent, q, x0 as int, y1 as int, z as int) && #[trigger] chunk_key_of(q, e) == k;
                        assert(visited(extent, q, x0 as int, y0 as int, z + 1));
                    }
                    if visited_chunk(extent, k, e, x0 as int, y0 as int, z + 1) {
                        let q = choose|q: Point3i| visited(extent, q, x0 as int, y0 as int, z + 1) && #[trigger] chunk_key_of(q, e) == k;
                        assert(visited(extent, q, x0 as int, y1 as int, z as int));
                    }
                }
            }
            z = z + 1;
        }
        assert(self.current_spec() =~= recorded(cur0, src@, extent, e)) by {
            assert forall|k: Point3i| visited_chunk(extent, k, e, x0 as int, y0 as int, z1 as int)
                <==> touches_chunk(extent, k, e) by {
                if touches_chunk(extent, k, e) {
                    let q = choose|q: Point3i| extent.contains_spec(q) && #[trigger] chunk_key_of(q, e) == k;
                    assert(visited(extent, q, x0 as int, y0 as int, z1 as int));
                }
            }
        }
    }
}

proof fn lemma_visited_row(ext: Extent3i, y: int, z: int)
    ensures
        forall|q: Point3i| #[trigger] visited(ext, q, ext.minimum.x + ext.shape.x, y, z)
            == visited(ext, q, ext.minimum.x as int, y + 1, z),
{
}

proof fn lemma_visited_layer(ext: Extent3i, z: int)
    ensures
        forall|q: Point3i| #[trigger] visited(ext, q, ext.minimum.x as int, ext.minimum.y + ext.shape.y, z)
            == visited(ext, q, ext.minimum.x as int, ext.minimum.y as int, z + 1),
{
}

proof fn lemma_visited_all(ext: Extent3i)
    ensures
        forall|q: Point3i| #[trigger] visited(ext, q, ext.minimum.x as int, ext.minimum.y as int, ext.minimum.z + ext.shape.z)
            == ext.contains_spec(q),
{
}

/// `a` limited to the coordinates of the world.
pub open spec fn clip(a: int) -> int {
    if a < -COORD_LIMIT {
        -COORD_LIMIT as int
    } else if a > COORD_LIMIT {
        COORD_LIMIT as int
    } else {
        a
    }
}

fn clip_exec(a: i64) -> (r: i32)
    ensures
        r == clip(a as int),
{
    if a < -(COORD_LIMIT as i64) {
        -COORD_LIMIT
    } else if a > COORD_LIMIT as i64 {
        COORD_LIMIT
    } else {
        a as i32
    }
}

/// The voxels of the box with least corner `lo` and size `size`, grown by one voxel on every
/// side and kept within the world: the voxels whose meshes an edit of the box can change.
pub open spec fn neighborhood(lo: Point3i, size: Point3i) -> Extent3i {
    Extent3i::min_and_max_spec(
        Point3i { x: clip(lo.x - 1) as i32, y: clip(lo.y - 1) as i32, z: clip(lo.z - 1) as i32 },
        Point3i { x: clip(lo.x + size.x) as i32, y: clip(lo.y + size.y) as i32, z: clip(lo.z + size.z) as i32 },
    )
}

/// The size of a chunk of edge `e`.
pub open spec fn chunk_cube(e: int) -> Point3i {
    Point3i { x: e as i32, y: e as i32, z: e as i32 }
}

/// The keys of the chunks that an edit of the box at `lo` of size `size` makes dirty.
pub open spec fn dirty_region(lo: Point3i, size: Point3i, e: int) -> Set<Point3i> {
    Set::new(|k: Point3i| touches_chunk(neighborhood(lo, size), k, e))
}

fn neighborhood_exec(lo: Point3i, size: Point3i) -> (r: Extent3i)
    ensures
        r == neighborhood(lo, size),
        r.in_bounds(),
{
    let min = Point3i {
        x: clip_exec(lo.x as i64 - 1),
        y: clip_exec(lo.y as i64 - 1),
        z: clip_exec(lo.z as i64 - 1),
    };
    let max = Point3i {
        x: clip_exec(lo.x as i64 + size.x as i64),
        y: clip_exec(lo.y as i64 + size.y as i64),
        z: clip_exec(lo.z as i64 + size.z as i64),
    };
    Extent3i::from_min_and_max(min, max)
}

fn contains_key(v: &Vec<Point3i>, k: Point3i) -> (r: bool)
    ensures
        r == v@.contains(k),
{
    let mut i: usize = 0;
    while i < v.len()
        invariant
            0 <= i <= v.len(),
            forall|j: int| 0 <= j < i ==> v@[j] != k,
        decreases v.len() - i,
    {
        if v[i] == k {
            assert(v@[i as int] == k);
            return true;
        }
        i = i + 1;
    }
    false
}

/// The keys of the chunks that hold some point of `extent`, each once.
pub fn chunk_keys_touching(extent: Extent3i, edge: i32) -> (r: Vec<Point3i>)
    requires
        extent.in_bounds(),
        valid_edge(edge as int),
    ensures
        forall|k: Point3i| r@.contains(k) <==> touches_chunk(extent, k, edge as int),
{
    let ghost e = edge as int;
    let mut keys: Vec<Point3i> = Vec::new();
    let (x0, y0, z0) = (extent.minimum.x, extent.minimum.y, extent.minimum.z);
    let x1 = x0 + extent.shape.x;
    let y1 = y0 + extent.shape.y;
    let z1 = z0 + extent.shape.z;
    let mut z = z0;
    while z < z1
        invariant
            z0 <= z <= z1,
            x1 == x0 + extent.shape.x && y1 == y0 + extent.shape.y && z1 == z0 + extent.shape.z,
            x0 == extent.minimum.x && y0 == extent.minimum.y && z0 == extent.minimum.z,
            extent.in_bounds(),
            valid_edge(e),
            e == edge,
            forall|k: Point3i| keys@.contains(k) <==> visited_chunk(extent, k, e, x0 as int, y0 as int, z as int),
        decreases z1 - z,
    {
        let mut y = y0;
        while y < y1
            invariant
                z0 <= z < z1,
                y0 <= y <= y1,
                x1 == x0 + extent.shape.x && y1 == y0 + extent.shape.y && z1 == z0 + extent.shape.z,
                x0 == extent.minimum.x && y0 == extent.minimum.y && z0 == extent.minimum.z,
                extent.in_bounds(),
                valid_edge(e),
                e == edge,
                forall|k: Point3i| keys@.contains(k) <==> visited_chunk(extent, k, e, x0 as int, y as int, z as int),
            decreases y1 - y,
        {
            let mut x = x0;
            while x < x1
                invariant
                    z0 <= z < z1,
                    y0 <= y < y1,
                    x0 <= x <= x1,
                    x1 == x0 + extent.shape.x && y1 == y0 + extent.shape.y && z1 == z0 + extent.shape.z,
                    x0 == extent.minimum.x && y0 == extent.minimum.y && z0 == extent.minimum.z,
                    extent.in_bounds(),
                    valid_edge(e),
                    e == edge,
                    forall|k: Point3i| keys@.contains(k) <==> visited_chunk(extent, k, e, x as int, y as int, z as int),
                decreases x1 - x,
            {
                let p = Point3i { x, y, z };
                let key = chunk_key_for_point(p, edge);
                let ghost before = keys@;
                if !contains_key(&keys, key) {
                    keys.push(key);
                }
                assert(visited(extent, p, x + 1, y as int, z as int));
                assert forall|k: Point3i| keys@.contains(k) <==> visited_chunk(extent, k, e, x + 1, y as int, z as int) by {
                    if visited_chunk(extent, k, e, x + 1, y as int, z as int) {
                        let q = choose|q: Point3i| visited(extent, q, x + 1, y as int, z as int) && #[trigger] chunk_key_of(q, e) == k;
                        if q != p {
                            assert(visited(extent, q, x as int, y as int, z as int));
                            assert(before.contains(k));
                        }
                        if before.contains(k) {
                            let j = choose|j: int| 0 <= j < before.len() && before[j] == k;
                            assert(keys@[j] == k);
                        } else {
                            assert(keys@[keys@.len() - 1] == k);
                        }
                    }
                    if keys@.contains(k) {
                        if before.contains(k) {
                            assert(visited_chunk(extent, k, e, x as int, y as int, z as int));
                            let q = choose|q: Point3i| visited(extent, q, x as int, y as int, z as int) && #[trigger] chunk_key_of(q, e) == k;
                            assert(visited(extent, q, x + 1, y as int, z as int));
                        } else {
                            assert(keys@ == before.push(key));
                            assert(k == key);
                            assert(chunk_key_of(p, e) == k);
                        }
                    }
                }
                x = x + 1;
            }
            assert forall|k: Point3i| visited_chunk(extent, k, e, x1 as int, y as int, z as int)
                <==> visited_chunk(extent, k, e, x0 as int, y + 1, z as int) by {
                if visited_chunk(extent, k, e, x1 as int, y as int, z as int) {
                    let q = choose|q: Point3i| visited(extent, q, x1 as int, y as int, z as int) && #[trigger] chunk_key_of(q, e) == k;
                    assert(visited(extent, q, x0 as int, y + 1, z as int));
                }
                if visited_chunk(extent, k, e, x0 as int, y + 1, z as int) {
                    let q = choose|q: Point3i| visited(extent, q, x0 as int, y + 1, z as int) && #[trigger] chunk_key_of(q, e) == k;
                    assert(visited(extent, q, x1 as int, y as int, z as int));
                }
            }
            y = y + 1;
        }
        assert forall|k: Point3i| visited_chunk(extent, k, e, x0 as int, y1 as int, z as int)
            <==> visited_chunk(extent, k, e, x0 as int, y0 as int, z + 1) by {
            if visited_chunk(extent, k, e, x0 as int, y1 as int, z as int) {
                let q = choose|q: Point3i| visited(extent, q, x0 as int, y1 as int, z as int) && #[trigger] chunk_key_of(q, e) == k;
                assert(visited(extent, q, x0 as int, y0 as int, z + 1));
            }
            if visited_chunk(extent, k, e, x0 as int, y0 as int, z + 1) {
                let q = choose|q: Point3i| visited(extent, q, x0 as int, y0 as int, z + 1) && #[trigger] chunk_key_of(q, e) == k;
                assert(visited(extent, q, x0 as int, y1 as int, z as int));
            }
        }
        z = z + 1;
    }
    assert forall|k: Point3i| visited_chunk(extent, k, e, x0 as int, y0 as int, z1 as int)
        <==> touches_chunk(extent, k, e) by {
        if touches_chunk(extent, k, e) {
            let q = choose|q: Point3i| extent.contains_spec(q) && #[trigger] chunk_key_of(q, e) == k;
            assert(visited(extent, q, x0 as int, y0 as int, z1 as int));
        }
    }
    keys
}

/// The voxel volume being edited, together with its edit timeline.
pub struct SnapshottingVoxelEditor {
    map: ChunkMap,
    timeline: EditTimeline,
    committed: Ghost<Snapshot>,
    dirty: Vec<Point3i>,
}

impl SnapshottingVoxelEditor {
    /// The volume as it stands.
    pub closed spec fn volume(&self) -> Snapshot {
        self.map@
    }

    /// The volume as it stood when the last edit was finished (or undone or redone, with the
    /// edit being built taken back).
    pub closed spec fn committed(&self) -> Snapshot {
        self.committed@
    }

    pub closed spec fn edge_spec(&self) -> int {
        self.map.edge_spec()
    }

    pub closed spec fn undo_spec(&self) -> Seq<Snapshot> {
        self.timeline.undo_spec()
    }

    pub closed spec fn redo_spec(&self) -> Seq<Snapshot> {
        self.timeline.redo_spec()
    }

    pub closed spec fn current_spec(&self) -> Snapshot {
        self.timeline.current_spec()
    }

    /// The keys of the chunks written, or next to a written voxel, since the dirty chunks were
    /// last taken.
    pub closed spec fn dirty_spec(&self) -> Set<Point3i> {
        Set::new(|k: Point3i| self.dirty@.contains(k))
    }

    /// Takes the keys of the dirty chunks, leaving none dirty.
    pub fn take_dirty_chunks(&mut self) -> (r: Vec<Point3i>)
        requires
            old(self).wf(),
        ensures
            final(self).wf(),
            forall|k: Point3i| r@.contains(k) <==> old(self).dirty_spec().contains(k),
            final(self).dirty_spec() == Set::<Point3i>::empty(),
            final(self).volume() == old(self).volume(),
            final(self).committed() == old(self).committed(),
            final(self).edge_spec() == old(self).edge_spec(),
            final(self).undo_spec() == old(self).undo_spec(),
            final(self).redo_spec() == old(self).redo_spec(),
            final(self).current_spec() == old(self).current_spec(),
    {
        let mut taken: Vec<Point3i> = Vec::new();
        std::mem::swap(&mut taken, &mut self.dirty);
        assert(self.dirty_spec() =~= Set::<Point3i>::empty());
        taken
    }

    /// Marks dirty each chunk in `keys` and the chunks next to it.
    fn mark_chunks_dirty(&mut self, keys: &Vec<Point3i>)
        requires
            old(self).wf(),
        ensures
            final(self).wf(),
            final(self).map == old(self).map,
            final(self).timeline == old(self).timeline,
            final(self).committed == old(self).committed,
            old(self).dirty_spec().subset_of(final(self).dirty_spec()),
            forall|k: Point3i| #[trigger] keys@.contains(k) ==> dirty_region(k, chunk_cube(old(self).edge_spec()),
                old(self).edge_spec()).subset_of(final(self).dirty_spec()),
    {
        proof {
            self.map.lemma_wf();
        }
        let e = self.map.edge();
        let cube = Point3i { x: e, y: e, z: e };
        let mut i: usize = 0;
        while i < keys.len()
            invariant
                0 <= i <= keys.len(),
                self.wf(),
                valid_edge(self.map.edge_spec()),
                e == self.map.edge_spec(),
                cube == chunk_cube(e as int),
                self.map == old(self).map,
                self.timeline == old(self).timeline,
                self.committed == old(self).committed,
                old(self).dirty_spec().subset_of(self.dirty_spec()),
                forall|t: int| 0 <= t < i ==> dirty_region(#[trigger] keys@[t], cube, e as int).subset_of(self.dirty_spec()),
            decreases keys.len() - i,
        {
            self.mark_dirty(keys[i], cube);
            i = i + 1;
        }
        assert forall|k: Point3i| #[trigger] keys@.contains(k) implies dirty_region(k, cube, e as int).subset_of(self.dirty_spec()) by {
            let t = choose|t: int| 0 <= t < keys@.len() && keys@[t] == k;
            assert(dirty_region(keys@[t], cube, e as int).subset_of(self.dirty_spec()));
        }
    }

    /// Marks dirty every chunk holding a voxel of the neighborhood of the box at `lo` of size
    /// `size`.
    fn mark_dirty(&mut self, lo: Point3i, size: Point3i)
        requires
            valid_edge(old(self).map.edge_spec()),
        ensures
            final(self).map == old(self).map,
            final(self).timeline == old(self).timeline,
            final(self).committed == old(self).committed,
            final(self).dirty_spec() == old(self).dirty_spec().union(
                dirty_region(lo, size, old(self).map.edge_spec()),
            ),
    {
        let region = neighborhood_exec(lo, size);
        let keys = chunk_keys_touching(region, self.map.edge());
        let mut i: usize = 0;
        while i < keys.len()
            invariant
                0 <= i <= keys.len(),
                self.map == old(self).map,
                self.timeline == old(self).timeline,
                self.committed == old(self).committed,
                forall|j: Point3i| self.dirty@.contains(j) <==> (old(self).dirty@.contains(j)
                    || exists|t: int| 0 <= t < i && #[trigger] keys@[t] == j),
            decreases keys.len() - i,
        {
            let k = keys[i];
            let ghost before = self.dirty@;
            if !contains_key(&self.dirty, k) {
                self.dirty.push(k);
            }
            assert forall|j: Point3i| self.dirty@.contains(j) <==> (old(self).dirty@.contains(j)
                || exists|t: int| 0 <= t < i + 1 && #[trigger] keys@[t] == j) by {
                if before.contains(j) {
                    let t2 = choose|t2: int| 0 <= t2 < before.len() && before[t2] == j;
                    assert(self.dirty@[t2] == j);
                }
                if j == k {
                    assert(keys@[i as int] == j);
                    if !before.contains(k) {
                        assert(self.dirty@[self.dirty@.len() - 1] == k);
                    }
                }
                if exists|t: int| 0 <= t < i + 1 && #[trigger] keys@[t] == j {
                    let t = choose|t: int| 0 <= t < i + 1 && #[trigger] keys@[t] == j;
                    if t < i {
                        assert(before.contains(j));
                    }
                }
                if self.dirty@.contains(j) && !before.contains(j) {
                    assert(j == k);
                }
            }
            i = i + 1;
        }
        assert forall|j: Point3i| keys@.contains(j) <==> exists|t: int| 0 <= t < keys.len() && #[trigger] keys@[t] == j by {
            if keys@.contains(j) {
                let t = choose|t: int| 0 <= t < keys@.len() && keys@[t] == j;
                assert(keys@[t] == j);
            }
        }
        assert(self.dirty_spec() =~= old(self).dirty_spec().union(
            dirty_region(lo, size, old(self).map.edge_spec())));
    }

    /// The edit being built holds exactly the content, as last committed, of every chunk that
    /// has been written since; every other chunk still reads as it did then.
    pub closed spec fn wf(&self) -> bool {
        &&& self.map.wf()
        &&& self.timeline.wf()
        &&& self.timeline.edge_spec() == self.map.edge_spec()
        &&& forall|k: Point3i| #[trigger] self.timeline.current_spec().contains_key(k)
            ==> self.timeline.current_spec()[k] == chunk_or_ambient(self.committed@, k, self.map.edge_spec())
        &&& forall|k: Point3i| !self.timeline.current_spec().contains_key(k)
            ==> #[trigger] chunk_or_ambient(self.map@, k, self.map.edge_spec())
                == chunk_or_ambient(self.committed@, k, self.map.edge_spec())
    }

    /// An editor over `map`, with nothing to undo or redo.
    pub fn new(map: ChunkMap) -> (r: SnapshottingVoxelEditor)
        requires
            map.wf(),
        ensures
            r.wf(),
            r.volume() == map@,
            r.committed() == map@,
            r.edge_spec() == map.edge_spec(),
            r.undo_spec() == Seq::<Snapshot>::empty(),
            r.redo_spec() == Seq::<Snapshot>::empty(),
            r.current_spec() == Map::<Point3i, Seq<Voxel>>::empty(),
            r.dirty_spec() == Set::<Point3i>::empty(),
    {
        proof {
            map.lemma_wf();
        }
        let timeline = EditTimeline::new(map.edge());
        let ghost m = map@;
        let r = SnapshottingVoxelEditor { map, timeline, committed: Ghost(m), dirty: Vec::new() };
        assert(r.dirty_spec() =~= Set::<Point3i>::empty());
        r
    }

    /// The volume being edited.
    pub fn map(&self) -> (r: &ChunkMap)
        requires
            self.wf(),
        ensures
            r.wf(),
            r@ == self.volume(),
            r.edge_spec() == self.edge_spec(),
    {
        &self.map
    }

    /// The voxel at `p`.
    pub fn get_voxel(&self, p: Point3i) -> (r: Voxel)
        requires
            self.wf(),
            p.in_bounds(),
        ensures
            r == voxel_at(self.volume(), self.edge_spec(), p),
    {
        self.map.get_voxel(p)
    }

    /// Applies `edit` to every voxel of `extent`, first recording in the edit being built the
    /// content of each chunk it is about to touch for the first time, and marks dirty the
    /// chunks that hold the extent's voxels or their neighbors.
    pub fn edit_extent_and_touch_neighbors(&mut self, extent: Extent3i, edit: VoxelEdit)
        requires
            old(self).wf(),
            extent.in_bounds(),
            edit_in_bounds(edit),
        ensures
            final(self).wf(),
            final(self).edge_spec() == old(self).edge_spec(),
            final(self).committed() == old(self).committed(),
            final(self).undo_spec() == old(self).undo_spec(),
            final(self).redo_spec() == old(self).redo_spec(),
            final(self).current_spec() == crate::editor::recorded(
                old(self).current_spec(),
                old(self).volume(),
                extent,
                old(self).edge_spec(),
            ),
            forall|q: Point3i| #[trigger] q.in_bounds() ==> voxel_at(final(self).volume(), final(self).edge_spec(), q)
                == if extent.contains_spec(q) {
                    edited_voxel(edit, q, voxel_at(old(self).volume(), old(self).edge_spec(), q))
                } else {
                    voxel_at(old(self).volume(), old(self).edge_spec(), q)
                },
            final(self).dirty_spec() == old(self).dirty_spec().union(
                dirty_region(extent.minimum, extent.shape, old(self).edge_spec()),
            ),
    {
        let ghost e = self.map.edge_spec();
        let ghost m0 = self.map@;
        self.timeline.add_extent_to_current_edit(extent, &self.map);
        let ghost cur = self.timeline.current_spec();
        proof {
            self.map.lemma_wf();
        }
        let (x0, y0, z0) = (extent.minimum.x, extent.minimum.y, extent.minimum.z);
        let x1 = x0 + extent.shape.x;
        let y1 = y0 + extent.shape.y;
        let z1 = z0 + extent.shape.z;
        let mut z = z0;
        while z < z1
            invariant
                z0 <= z <= z1,
                x1 == x0 + extent.shape.x && y1 == y0 + extent.shape.y && z1 == z0 + extent.shape.z,
                x0 == extent.minimum.x && y0 == extent.minimum.y && z0 == extent.minimum.z,
                extent.in_bounds(),
                edit_in_bounds(edit),
                valid_edge(e),
                self.map.wf(),
                self.map.edge_spec() == e,
                self.timeline.wf(),
                self.timeline.edge_spec() == e,
                self.timeline.current_spec() == cur,
                self.timeline.undo_spec() == old(self).undo_spec(),
                self.timeline.redo_spec() == old(self).redo_spec(),
                self.committed == old(self).committed,
                self.dirty == old(self).dirty,
                cur == recorded(old(self).current_spec(), m0, extent, e),
                crate::chunk_map::valid_chunks(m0, e),
                forall|k: Point3i| !cur.contains_key(k) ==> #[trigger] chunk_or_ambient(self.map@, k, e) == chunk_or_ambient(m0, k, e),
                forall|q: Point3i| #[trigger] q.in_bounds() ==> voxel_at(self.map@, e, q)
                    == if visited(extent, q, x0 as int, y0 as int, z as int) {
                        edited_voxel(edit, q, voxel_at(m0, e, q))
                    } else {
                        voxel_at(m0, e, q)
                    },
            decreases z1 - z,
        {
            let mut y = y0;
            while y < y1
                invariant
                    z0 <= z < z1,
                    y0 <= y <= y1,
                    x1 == x0 + extent.shape.x && y1 == y0 + extent.shape.y && z1 == z0 + extent.shape.z,
                    x0 == extent.minimum.x && y0 == extent.minimum.y && z0 == extent.minimum.z,
                    extent.in_bounds(),
                    edit_in_bounds(edit),
                    valid_edge(e),
                    self.map.wf(),
                    self.map.edge_spec() == e,
                    self.timeline.wf(),
                    self.timeline.edge_spec() == e,
                    self.timeline.current_spec() == cur,
                    self.timeline.undo_spec() == old(self).undo_spec(),
                    self.timeline.redo_spec() == old(self).redo_spec(),
                    self.committed == old(self).committed,
                    self.dirty == old(self).dirty,
                    cur == recorded(old(self).current_spec(), m0, extent, e),
                    crate::chunk_map::valid_chunks(m0, e),
                    forall|k: Point3i| !cur.contains_key(k) ==> #[trigger] chunk_or_ambient(self.map@, k, e) == chunk_or_ambient(m0, k, e),
                    forall|q: Point3i| #[trigger] q.in_bounds() ==> voxel_at(self.map@, e, q)
                        == if visited(extent, q, x0 as int, y as int, z as int) {
                            edited_voxel(edit, q, voxel_at(m0, e, q))
                        } else {
                            voxel_at(m0, e, q)
                        },
                decreases y1 - y,
            {
                let mut x = x0;
                while x < x1
                    invariant
                        z0 <= z < z1,
                        y0 <= y < y1,
                        x0 <= x <= x1,
                        x1 == x0 + extent.shape.x && y1 == y0 + extent.shape.y && z1 == z0 + extent.shape.z,
                        x0 == extent.minimum.x && y0 == extent.minimum.y && z0 == extent.minimum.z,
                        extent.in_bounds(),
                        edit_in_bounds(edit),
                        valid_edge(e),
                        self.map.wf(),
                        self.map.edge_spec() == e,
                        self.timeline.wf(),
                        self.timeline.edge_spec() == e,
                        self.timeline.current_spec() == cur,
                        self.timeline.undo_spec() == old(self).undo_spec(),
                        self.timeline.redo_spec() == old(self).redo_spec(),
                        self.committed == old(self).committed,
                        self.dirty == old(self).dirty,
                        cur == recorded(old(self).current_spec(), m0, extent, e),
                        crate::chunk_map::valid_chunks(m0, e),
                        forall|k: Point3i| !cur.contains_key(k) ==> #[trigger] chunk_or_ambient(self.map@, k, e) == chunk_or_ambient(m0, k, e),
                        forall|q: Point3i| #[trigger] q.in_bounds() ==> voxel_at(self.map@, e, q)
                            == if visited(extent, q, x as int, y as int, z as int) {
                                edited_voxel(edit, q, voxel_at(m0, e, q))
                            } else {
                                voxel_at(m0, e, q)
                            },
                    decreases x1 - x,
                {
                    let p = Point3i { x, y, z };
                    let ghost m1 = self.map@;
                    proof {
                        self.map.lemma_wf();
                    }
                    let v = self.map.get_voxel(p);
                    let w = edit_voxel(edit, p, v);
                    self.map.set_voxel(p, w);
                    proof {
                        assert forall|q: Point3i| #[trigger] q.in_bounds() implies voxel_at(self.map@, e, q)
                            == if visited(extent, q, x + 1, y as int, z as int) {
                                edited_voxel(edit, q, voxel_at(m0, e, q))
                            } else {
                                voxel_at(m0, e, q)
                            } by {
                            lemma_set_voxel_frame(m1, e, p, w, q);
                        }
                        let kp = chunk_key_of(p, e);
                        assert(extent.contains_spec(p));
                        assert(touches_chunk(extent, kp, e));
                        assert(cur.contains_key(kp));
                        assert forall|k: Point3i| !cur.contains_key(k) implies #[trigger] chunk_or_ambient(self.map@, k, e)
                            == chunk_or_ambient(m0, k, e) by {
                            assert(k != kp);
                            assert(chunk_or_ambient(m1, k, e) == chunk_or_ambient(m0, k, e));
                        }
                    }
                    x = x + 1;
                }
                proof {
                    lemma_visited_row(extent, y as int, z as int);
                }
                y = y + 1;
            }
            proof {
                lemma_visited_layer(extent, z as int);
            }
            z = z + 1;
        }
        proof {
            lemma_visited_all(extent);
            let c0 = old(self).current_spec();
            assert forall|k: Point3i| #[trigger] cur.contains_key(k) implies cur[k]
                == chunk_or_ambient(self.committed@, k, e) by {
                if !c0.contains_key(k) {
                    assert(cur[k] == chunk_or_ambient(m0, k, e));
                }
            }
            assert forall|k: Point3i| !cur.contains_key(k) implies #[trigger] chunk_or_ambient(self.map@, k, e)
                == chunk_or_ambient(self.committed@, k, e) by {
                assert(!c0.contains_key(k));
                assert(chunk_or_ambient(self.map@, k, e) == chunk_or_ambient(m0, k, e));
            }
        }
        self.mark_dirty(extent.minimum, extent.shape);
    }

    /// Finishes the edit being built: it becomes one unit on the undo stack, the redo stack is
    /// cleared, and undoing it would give back the volume as it was at the last commit.
    pub fn finish_edit(&mut self)
        requires
            old(self).wf(),
        ensures
            final(self).wf(),
            final(self).edge_spec() == old(self).edge_spec(),
            final(self).volume() == old(self).volume(),
            final(self).committed() == old(self).volume(),
            final(self).undo_spec() == old(self).undo_spec().push(old(self).current_spec()),
            final(self).redo_spec() == Seq::<Snapshot>::empty(),
            final(self).current_spec() == Map::<Point3i, Seq<Voxel>>::empty(),
            final(self).dirty_spec() == old(self).dirty_spec(),
            same_volume(
                final(self).volume().union_prefer_right(final(self).undo_spec().last()),
                old(self).committed(),
                old(self).edge_spec(),
            ),
    {
        self.timeline.store_current_edit();
        let ghost m = self.map@;
        self.committed = Ghost(m);
        proof {
            let e = self.map.edge_spec();
            let c = old(self).current_spec();
            assert(self.undo_spec().last() == c);
            let u = m.union_prefer_right(c);
            assert forall|k: Point3i| #[trigger] chunk_or_ambient(u, k, e) == chunk_or_ambient(old(self).committed@, k, e) by {
                if c.contains_key(k) {
                    assert(chunk_or_ambient(u, k, e) == c[k]);
                } else {
                    assert(chunk_or_ambient(u, k, e) == chunk_or_ambient(m, k, e));
                }
            }
        }
    }

    /// Undoes the last finished edit; nothing happens when there is none.
    pub fn undo(&mut self)
        requires
            old(self).wf(),
        ensures
            final(self).wf(),
            final(self).edge_spec() == old(self).edge_spec(),
            final(self).current_spec() == old(self).current_spec(),
            (final(self).undo_spec(), final(self).redo_spec(), final(self).volume()) == undo_step(
                (old(self).undo_spec(), old(self).redo_spec(), old(self).volume()),
                old(self).edge_spec(),
            ),
            final(self).committed() == final(self).volume().union_prefer_right(final(self).current_spec()),
            old(self).dirty_spec().subset_of(final(self).dirty_spec()),
            forall|k: Point3i| old(self).undo_spec().len() > 0 && #[trigger] old(self).undo_spec().last().contains_key(k)
                ==> dirty_region(k, chunk_cube(old(self).edge_spec()), old(self).edge_spec()).subset_of(final(self).dirty_spec()),
    {
        let keys = self.timeline.undo_keys();
        self.timeline.undo(&mut self.map);
        self.recommit();
        let ghost mid = *self;
        self.mark_chunks_dirty(&keys);
        assert(old(self).dirty_spec() =~= mid.dirty_spec());
        assert forall|k: Point3i| old(self).undo_spec().len() > 0 && #[trigger] old(self).undo_spec().last().contains_key(k)
            implies dirty_region(k, chunk_cube(old(self).edge_spec()), old(self).edge_spec()).subset_of(self.dirty_spec()) by {
            assert(keys@.contains(k));
        }
    }

    /// Redoes the last undone edit; nothing happens when there is none.
    pub fn redo(&mut self)
        requires
            old(self).wf(),
        ensures
            final(self).wf(),
            final(self).edge_spec() == old(self).edge_spec(),
            final(self).current_spec() == old(self).current_spec(),
            (final(self).undo_spec(), final(self).redo_spec(), final(self).volume()) == redo_step(
                (old(self).undo_spec(), old(self).redo_spec(), old(self).volume()),
                old(self).edge_spec(),
            ),
            final(self).committed() == final(self).volume().union_prefer_right(final(self).current_spec()),
            old(self).dirty_spec().subset_of(final(self).dirty_spec()),
            forall|k: Point3i| old(self).redo_spec().len() > 0 && #[trigger] old(self).redo_spec().last().contains_key(k)
                ==> dirty_region(k, chunk_cube(old(self).edge_spec()), old(self).edge_spec()).subset_of(final(self).dirty_spec()),
    {
        let keys = self.timeline.redo_keys();
        self.timeline.redo(&mut self.map);
        self.recommit();
        let ghost mid = *self;
        self.mark_chunks_dirty(&keys);
        assert(old(self).dirty_spec() =~= mid.dirty_spec());
        assert forall|k: Point3i| old(self).redo_spec().len() > 0 && #[trigger] old(self).redo_spec().last().contains_key(k)
            implies dirty_region(k, chunk_cube(old(self).edge_spec()), old(self).edge_spec()).subset_of(self.dirty_spec()) by {
            assert(keys@.contains(k));
        }
    }

    /// Takes as committed the volume with the edit being built taken back.
    fn recommit(&mut self)
        requires
            old(self).map.wf(),
            old(self).timeline.wf(),
            old(self).timeline.edge_spec() == old(self).map.edge_spec(),
        ensures
            final(self).wf(),
            final(self).map == old(self).map,
            final(self).timeline == old(self).timeline,
            final(self).dirty == old(self).dirty,
            final(self).committed() == old(self).volume().union_prefer_right(old(self).current_spec()),
    {
        let ghost c = self.map@.union_prefer_right(self.timeline.current_spec());
        self.committed = Ghost(c);
        proof {
            let e = self.map.edge_spec();
            let cur = self.timeline.current_spec();
            assert forall|k: Point3i| #[trigger] cur.contains_key(k) implies cur[k] == chunk_or_ambient(c, k, e) by {}
            assert forall|k: Point3i| !cur.contains_key(k) implies #[trigger] chunk_or_ambient(self.map@, k, e)
                == chunk_or_ambient(c, k, e) by {}
        }
    }
}

} // verus!
