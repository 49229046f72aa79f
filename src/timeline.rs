//! The edit timeline: for each finished edit, the contents that its chunks held before it, so
//! that it can be undone; and for each undone edit, what its chunks held before the undo, so
//! that it can be redone.

use crate::chunk_map::{
    chunk_or_ambient, lemma_same_volume_voxels, same_volume, valid_chunks, valid_edge, voxel_at, ChunkMap,
};
use crate::voxel::{Point3i, Voxel};
use vstd::prelude::*;

verus! {

/// Chunk contents keyed by chunk key.
pub type Snapshot = Map<Point3i, Seq<Voxel>>;

/// The contents, present or ambient, that `target` gives the chunks in `keys`.
pub open spec fn capture(target: Snapshot, keys: Set<Point3i>, e: int) -> Snapshot {
    Map::new(|k: Point3i| keys.contains(k), |k: Point3i| chunk_or_ambient(target, k, e))
}

/// The state that undo and redo act on: the undo stack, the redo stack (tops last) and the
/// volume being edited.
pub type History = (Seq<Snapshot>, Seq<Snapshot>, Snapshot);

/// Pops the top of `from`, writes it over `target`, and pushes onto `to` what its chunks held
/// just before; nothing happens when `from` is empty.
pub open spec fn restore_step(from: Seq<Snapshot>, to: Seq<Snapshot>, target: Snapshot, e: int) -> (
    Seq<Snapshot>,
    Seq<Snapshot>,
    Snapshot,
) {
    if from.len() == 0 {
        (from, to, target)
    } else {
        let s = from.last();
        (from.drop_last(), to.push(capture(target, s.dom(), e)), target.union_prefer_right(s))
    }
}

/// One undo.
pub open spec fn undo_step(h: History, e: int) -> History {
    let (u, r, t) = restore_step(h.0, h.1, h.2, e);
    (u, r, t)
}

/// One redo.
pub open spec fn redo_step(h: History, e: int) -> History {
    let (r, u, t) = restore_step(h.1, h.0, h.2, e);
    (u, r, t)
}

/// `n` undos in a row.
pub open spec fn undo_n(h: History, e: int, n: nat) -> History
    decreases n,
{
    if n == 0 {
        h
    } else {
        undo_n(undo_step(h, e), e, (n - 1) as nat)
    }
}

/// `n` redos in a row.
pub open spec fn redo_n(h: History, e: int, n: nat) -> History
    decreases n,
{
    if n == 0 {
        h
    } else {
        redo_step(redo_n(h, e, (n - 1) as nat), e)
    }
}

/// Two histories with the same stacks whose volumes read the same everywhere.
pub open spec fn equivalent(h1: History, h2: History, e: int) -> bool {
    h1.0 == h2.0 && h1.1 == h2.1 && same_volume(h1.2, h2.2, e)
}

proof fn lemma_restore_congruent(
    from: Seq<Snapshot>,
    to: Seq<Snapshot>,
    t1: Snapshot,
    t2: Snapshot,
    e: int,
)
    requires
        same_volume(t1, t2, e),
    ensures
        restore_step(from, to, t1, e).0 == restore_step(from, to, t2, e).0,
        restore_step(from, to, t1, e).1 == restore_step(from, to, t2, e).1,
        same_volume(restore_step(from, to, t1, e).2, restore_step(from, to, t2, e).2, e),
{
    if from.len() > 0 {
        let s = from.last();
        assert(capture(t1, s.dom(), e) =~= capture(t2, s.dom(), e)) by {
            assert forall|k: Point3i| s.dom().contains(k) implies chunk_or_ambient(t1, k, e)
                == chunk_or_ambient(t2, k, e) by {
                assert(chunk_or_ambient(t1, k, e) == chunk_or_ambient(t2, k, e));
            }
        }
        let (a, b) = (t1.union_prefer_right(s), t2.union_prefer_right(s));
        assert forall|k: Point3i| #[trigger] chunk_or_ambient(a, k, e) == chunk_or_ambient(b, k, e) by {
            assert(chunk_or_ambient(t1, k, e) == chunk_or_ambient(t2, k, e));
        }
    }
}

/// Restoring a snapshot and then restoring what it captured gives back the stacks exactly and
/// a volume that reads the same everywhere.
proof fn lemma_restore_round_trip(from: Seq<Snapshot>, to: Seq<Snapshot>, t: Snapshot, e: int)
    requires
        from.len() > 0,
    ensures
        ({
            let (f1, t1, v1) = restore_step(from, to, t, e);
            let (t2, f2, v2) = restore_step(t1, f1, v1, e);
            f2 == from && t2 == to && same_volume(v2, t, e)
        }),
{
    let s = from.last();
    let (f1, t1, v1) = restore_step(from, to, t, e);
    let c = capture(t, s.dom(), e);
    assert(t1.last() == c);
    assert(c.dom() =~= s.dom());
    let c2 = capture(v1, c.dom(), e);
    assert(c2 =~= s);
    assert(f1.push(c2) =~= from);
    assert(t1.drop_last() =~= to);
    let v2 = v1.union_prefer_right(c);
    assert forall|k: Point3i| #[trigger] chunk_or_ambient(v2, k, e) == chunk_or_ambient(t, k, e) by {}
}

proof fn lemma_undo_n_congruent(h1: History, h2: History, e: int, n: nat)
    requires
        equivalent(h1, h2, e),
    ensures
        equivalent(undo_n(h1, e, n), undo_n(h2, e, n), e),
    decreases n,
{
    if n > 0 {
        lemma_restore_congruent(h1.0, h1.1, h1.2, h2.2, e);
        lemma_undo_n_congruent(undo_step(h1, e), undo_step(h2, e), e, (n - 1) as nat);
    }
}

proof fn lemma_redo_n_congruent(h1: History, h2: History, e: int, n: nat)
    requires
        equivalent(h1, h2, e),
    ensures
        equivalent(redo_n(h1, e, n), redo_n(h2, e, n), e),
    decreases n,
{
    if n > 0 {
        lemma_redo_n_congruent(h1, h2, e, (n - 1) as nat);
        let (a, b) = (redo_n(h1, e, (n - 1) as nat), redo_n(h2, e, (n - 1) as nat));
        lemma_restore_congruent(a.1, a.0, a.2, b.2, e);
    }
}

proof fn lemma_undo_n_len(h: History, e: int, n: nat)
    requires
        n <= h.0.len(),
    ensures
        undo_n(h, e, n).0.len() == h.0.len() - n,
        undo_n(h, e, n).1.len() == h.1.len() + n,
    decreases n,
{
    if n > 0 {
        lemma_undo_n_len(undo_step(h, e), e, (n - 1) as nat);
    }
}

/// Undo and redo are exact inverses: from any history, `n` undos followed by `n` redos (with
/// at least `n` edits to undo) give back both stacks exactly and a volume in which every
/// chunk, and so every voxel, reads as it did before.
pub proof fn lemma_undo_redo_inverse(h: History, e: int, n: nat)
    requires
        n <= h.0.len(),
    ensures
        equivalent(redo_n(undo_n(h, e, n), e, n), h, e),
        forall|p: Point3i| #[trigger] voxel_at(redo_n(undo_n(h, e, n), e, n).2, e, p) == voxel_at(h.2, e, p),
    decreases n,
{
    lemma_undo_redo_equivalent(h, e, n);
    lemma_same_volume_voxels(redo_n(undo_n(h, e, n), e, n).2, h.2, e);
}

proof fn lemma_undo_redo_equivalent(h: History, e: int, n: nat)
    requires
        n <= h.0.len(),
    ensures
        equivalent(redo_n(undo_n(h, e, n), e, n), h, e),
    decreases n,
{
    if n > 0 {
        let h1 = undo_step(h, e);
        lemma_undo_redo_equivalent(h1, e, (n - 1) as nat);
        let mid = redo_n(undo_n(h1, e, (n - 1) as nat), e, (n - 1) as nat);
        // `mid` reads as `h1` does, so one more redo from it reads as one redo from `h1`.
        lemma_restore_congruent(mid.1, mid.0, mid.2, h1.2, e);
        lemma_restore_round_trip(h.0, h.1, h.2, e);
        assert(undo_n(h, e, n) == undo_n(h1, e, (n - 1) as nat));
        let final_h = redo_n(undo_n(h, e, n), e, n);
        assert(final_h == redo_step(mid, e));
        let r1 = redo_step(h1, e);
        assert(equivalent(r1, h, e));
        assert forall|k: Point3i| #[trigger] chunk_or_ambient(final_h.2, k, e) == chunk_or_ambient(h.2, k, e) by {
            assert(chunk_or_ambient(final_h.2, k, e) == chunk_or_ambient(r1.2, k, e));
            assert(chunk_or_ambient(r1.2, k, e) == chunk_or_ambient(h.2, k, e));
        }
    }
}

/// A set of chunk contents: what the chunks of one edit held before it (or before its undo).
pub struct Edit {
    pub voxels: ChunkMap,
}

impl Edit {
    pub fn new(edge: i32) -> (r: Edit)
        requires
            valid_edge(edge as int),
        ensures
            r.voxels.wf(),
            r.voxels@ == Map::<Point3i, Seq<Voxel>>::empty(),
            r.voxels.edge_spec() == edge,
    {
        Edit { voxels: ChunkMap::new(edge) }
    }
}

/// The snapshots held by a stack of edits.
pub open spec fn snapshots(v: Seq<Edit>) -> Seq<Snapshot> {
    v.map_values(|x: Edit| x.voxels@)
}

/// Every edit is well formed, with chunk edge `e`.
pub open spec fn edits_wf(v: Seq<Edit>, e: int) -> bool {
    forall|i: int| 0 <= i < v.len() ==> (#[trigger] v[i]).voxels.wf() && v[i].voxels.edge_spec() == e
}

/// Undo and redo stacks of edits, and the edit being recorded.
pub struct EditTimeline {
    undo_queue: Vec<Edit>,
    redo_queue: Vec<Edit>,
    current_edit: Edit,
}

impl EditTimeline {
    pub closed spec fn edge_spec(&self) -> int {
        self.current_edit.voxels.edge_spec()
    }

    pub closed spec fn undo_spec(&self) -> Seq<Snapshot> {
        snapshots(self.undo_queue@)
    }

    pub closed spec fn redo_spec(&self) -> Seq<Snapshot> {
        snapshots(self.redo_queue@)
    }

    /// What the chunks recorded so far in the edit being built held before it.
    pub closed spec fn current_spec(&self) -> Snapshot {
        self.current_edit.voxels@
    }

    pub closed spec fn wf(&self) -> bool {
        &&& self.current_edit.voxels.wf()
        &&& edits_wf(self.undo_queue@, self.edge_spec())
        &&& edits_wf(self.redo_queue@, self.edge_spec())
    }

    pub fn new(edge: i32) -> (r: EditTimeline)
        requires
            valid_edge(edge as int),
        ensures
            r.wf(),
            r.edge_spec() == edge,
            r.undo_spec() == Seq::<Snapshot>::empty(),
            r.redo_spec() == Seq::<Snapshot>::empty(),
            r.current_spec() == Map::<Point3i, Seq<Voxel>>::empty(),
    {
        let r = EditTimeline { undo_queue: Vec::new(), redo_queue: Vec::new(), current_edit: Edit::new(edge) };
        assert(r.undo_spec() =~= Seq::<Snapshot>::empty());
        assert(r.redo_spec() =~= Seq::<Snapshot>::empty());
        r
    }

    pub fn edge(&self) -> (r: i32)
        ensures
            r == self.edge_spec(),
    {
        self.current_edit.voxels.edge()
    }

    /// Finishes the edit being recorded: it becomes the top of the undo stack, the redo stack
    /// is cleared, and a new empty edit begins.
    pub fn store_current_edit(&mut self)
        requires
            old(self).wf(),
        ensures
            final(self).wf(),
            final(self).edge_spec() == old(self).edge_spec(),
            final(self).undo_spec() == old(self).undo_spec().push(old(self).current_spec()),
            final(self).redo_spec() == Seq::<Snapshot>::empty(),
            final(self).current_spec() == Map::<Point3i, Seq<Voxel>>::empty(),
    {
        let edge = self.current_edit.voxels.edge();
        proof {
            self.current_edit.voxels.lemma_wf();
        }
        let mut finalized = Edit::new(edge);
        std::mem::swap(&mut self.current_edit, &mut finalized);
        self.undo_queue.push(finalized);
        self.redo_queue.clear();
        assert(self.undo_spec() =~= old(self).undo_spec().push(old(self).current_spec()));
        assert(self.redo_spec() =~= Seq::<Snapshot>::empty());
    }

    /// Undoes the last finished edit on `target`; nothing happens when there is none.
    pub fn undo(&mut self, target: &mut ChunkMap)
        requires
            old(self).wf(),
            old(target).wf(),
            old(target).edge_spec() == old(self).edge_spec(),
        ensures
            final(self).wf(),
            final(target).wf(),
            final(self).edge_spec() == old(self).edge_spec(),
            final(target).edge_spec() == old(target).edge_spec(),
            final(self).current_spec() == old(self).current_spec(),
            (final(self).undo_spec(), final(self).redo_spec(), final(target)@) == undo_step(
                (old(self).undo_spec(), old(self).redo_spec(), old(target)@),
                old(self).edge_spec(),
            ),
    {
        let ghost e = self.edge_spec();
        reversible_restore_snapshot(&mut self.undo_queue, &mut self.redo_queue, target, Ghost(e));
    }

    /// Redoes the last undone edit on `target`; nothing happens when there is none.
    pub fn redo(&mut self, target: &mut ChunkMap)
        requires
            old(self).wf(),
            old(target).wf(),
            old(target).edge_spec() == old(self).edge_spec(),
        ensures
            final(self).wf(),
            final(target).wf(),
            final(self).edge_spec() == old(self).edge_spec(),
            final(target).edge_spec() == old(target).edge_spec(),
            final(self).current_spec() == old(self).current_spec(),
            (final(self).undo_spec(), final(self).redo_spec(), final(target)@) == redo_step(
                (old(self).undo_spec(), old(self).redo_spec(), old(target)@),
                old(self).edge_spec(),
            ),
    {
        let ghost e = self.edge_spec();
        reversible_restore_snapshot(&mut self.redo_queue, &mut self.undo_queue, target, Ghost(e));
    }

    /// The keys of the chunks that the next undo writes.
    pub fn undo_keys(&self) -> (r: Vec<Point3i>)
        requires
            self.wf(),
        ensures
            forall|k: Point3i| r@.contains(k) <==> (self.undo_spec().len() > 0 && self.undo_spec().last().contains_key(k)),
    {
        top_keys(&self.undo_queue, Ghost(self.edge_spec()))
    }

    /// The keys of the chunks that the next redo writes.
    pub fn redo_keys(&self) -> (r: Vec<Point3i>)
        requires
            self.wf(),
        ensures
            forall|k: Point3i| r@.contains(k) <==> (self.redo_spec().len() > 0 && self.redo_spec().last().contains_key(k)),
    {
        top_keys(&self.redo_queue, Ghost(self.edge_spec()))
    }

    /// Records chunk `key` in the edit being built, with its present content in `src`, unless
    /// the edit already holds it.
    pub fn add_chunk_to_current_edit(&mut self, key: Point3i, src: &ChunkMap)
        requires
            old(self).wf(),
            src.wf(),
            src.edge_spec() == old(self).edge_spec(),
            crate::chunk_map::is_chunk_key(key, old(self).edge_spec()),
        ensures
            final(self).wf(),
            final(self).edge_spec() == old(self).edge_spec(),
            final(self).undo_spec() == old(self).undo_spec(),
            final(self).redo_spec() == old(self).redo_spec(),
            final(self).current_spec() == (if old(self).current_spec().contains_key(key) {
                old(self).current_spec()
            } else {
                old(self).current_spec().insert(key, chunk_or_ambient(src@, key, src.edge_spec()))
            }),
    {
        if !self.current_edit.voxels.contains_chunk(key) {
            let c = src.chunk_or_ambient(key);
            proof {
                src.lemma_wf();
            }
            self.current_edit.voxels.write_chunk(key, c);
        }
    }
}

fn top_keys(stack: &Vec<Edit>, e: Ghost<int>) -> (r: Vec<Point3i>)
    requires
        edits_wf(stack@, e@),
    ensures
        forall|k: Point3i| r@.contains(k) <==> (snapshots(stack@).len() > 0 && snapshots(stack@).last().contains_key(k)),
{
    if stack.len() == 0 {
        let r: Vec<Point3i> = Vec::new();
        assert forall|k: Point3i| !r@.contains(k) by {}
        r
    } else {
        let n = stack.len() - 1;
        assert(stack@[n as int].voxels.wf());
        let r = stack[n].voxels.chunk_keys();
        assert(snapshots(stack@).last() == stack@[n as int].voxels@);
        r
    }
}

/// The keys at positions `n` and after.
spec fn keys_from(keys: Seq<Point3i>, n: int) -> Set<Point3i> {
    Set::new(|k: Point3i| exists|j: int| n <= j < keys.len() && #[trigger] keys[j] == k)
}

/// Pops the top edit of `do_queue`, writes its chunks into `target`, and pushes onto
/// `undo_queue` what those chunks held just before.
fn reversible_restore_snapshot(
    do_queue: &mut Vec<Edit>,
    undo_queue: &mut Vec<Edit>,
    target: &mut ChunkMap,
    e: Ghost<int>,
)
    requires
        edits_wf(old(do_queue)@, e@),
        edits_wf(old(undo_queue)@, e@),
        old(target).wf(),
        old(target).edge_spec() == e@,
    ensures
        edits_wf(final(do_queue)@, e@),
        edits_wf(final(undo_queue)@, e@),
        final(target).wf(),
        final(target).edge_spec() == e@,
        (snapshots(final(do_queue)@), snapshots(final(undo_queue)@), final(target)@) == restore_step(
            snapshots(old(do_queue)@),
            snapshots(old(undo_queue)@),
            old(target)@,
            e@,
        ),
{
    if let Some(edit) = do_queue.pop() {
        assert(snapshots(do_queue@) =~= snapshots(old(do_queue)@).drop_last());
        assert(edit == old(do_queue)@.last());
        assert(edit.voxels.wf());
        let ghost snap = edit.voxels@;
        let ghost t0 = target@;
        let edge = target.edge();
        proof {
            target.lemma_wf();
            edit.voxels.lemma_wf();
        }
        let (mut keys, mut chunks) = edit.voxels.into_entries();
        let ghost keys0 = keys@;
        let ghost chunks0 = chunks@;
        let mut inverse = ChunkMap::new(edge);
        while keys.len() > 0
            invariant
                keys.len() == chunks.len(),
                keys@ == keys0.subrange(0, keys.len() as int),
                chunks@ == chunks0.subrange(0, chunks.len() as int),
                keys0.len() == chunks0.len(),
                keys.len() <= keys0.len(),
                forall|i: int, j: int| 0 <= i < keys0.len() && 0 <= j < keys0.len() && i != j ==> keys0[i] != keys0[j],
                forall|i: int| 0 <= i < keys0.len() ==> #[trigger] snap.contains_key(keys0[i]) && snap[keys0[i]] == chunks0[i]@,
                forall|k: Point3i| #[trigger] snap.contains_key(k) ==> exists|i: int| 0 <= i < keys0.len() && keys0[i] == k,
                valid_chunks(snap, e@),
                target.wf(),
                target.edge_spec() == e@,
                inverse.wf(),
                inverse.edge_spec() == e@,
                edge == e@,
                target@ == t0.union_prefer_right(snap.restrict(keys_from(keys0, keys.len() as int))),
                inverse@ == capture(t0, keys_from(keys0, keys.len() as int), e@),
            decreases keys.len(),
        {
            let ghost n = keys.len() as int;
            let key = keys.pop().unwrap();
            let chunk = chunks.pop().unwrap();
            assert(key == keys0[n - 1]);
            assert(chunk@ == chunks0[n - 1]@);
            let ghost done = keys_from(keys0, n);
            let ghost done2 = keys_from(keys0, n - 1);
            assert(done2 =~= done.insert(key)) by {
                assert forall|k: Point3i| done2.contains(k) <==> done.insert(key).contains(k) by {
                    if done2.contains(k) {
                        let j = choose|j: int| n - 1 <= j < keys0.len() && keys0[j] == k;
                        if j > n - 1 {
                            assert(done.contains(k));
                        }
                    }
                    if k == key {
                        assert(keys0[n - 1] == k);
                    }
                }
            }
            assert(!done.contains(key)) by {
                if done.contains(key) {
                    let j = choose|j: int| n <= j < keys0.len() && keys0[j] == key;
                    assert(keys0[j] == keys0[n - 1]);
                }
            }
            assert(snap.contains_key(keys0[n - 1]));
            let old_chunk = target.chunk_or_ambient(key);
            assert(old_chunk@ == chunk_or_ambient(t0, key, e@));
            proof {
                target.lemma_wf();
            }
            inverse.write_chunk(key, old_chunk);
            target.write_chunk(key, chunk);
            assert(keys@ =~= keys0.subrange(0, keys.len() as int));
            assert(chunks@ =~= chunks0.subrange(0, chunks.len() as int));
            assert(target@ =~= t0.union_prefer_right(snap.restrict(done2)));
            assert(inverse@ =~= capture(t0, done2, e@));
        }
        let ghost all = keys_from(keys0, 0);
        assert(all =~= snap.dom()) by {
            assert forall|k: Point3i| snap.dom().contains(k) implies all.contains(k) by {
                let i = choose|i: int| 0 <= i < keys0.len() && keys0[i] == k;
                assert(keys0[i] == k);
            }
        }
        assert(snap.restrict(all) =~= snap);
        undo_queue.push(Edit { voxels: inverse });
        assert(snapshots(undo_queue@) =~= snapshots(old(undo_queue)@).push(capture(t0, snap.dom(), e@)));
        assert(snapshots(old(do_queue)@).last() == snap);
    }
}

} // verus!
