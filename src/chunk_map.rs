//! A sparse map of dense cubic chunks of voxels. A chunk that the map does not hold is
//! ambient: every voxel in it is `ambient_voxel()`.

use crate::voxel::{ambient_voxel, Point3i, Voxel, COORD_LIMIT};
use vstd::arithmetic::div_mod::{
    lemma_fundamental_div_mod, lemma_fundamental_div_mod_converse, lemma_mod_bound,
};
use vstd::prelude::*;

verus! {

/// The largest edge length of a chunk.
pub const MAX_CHUNK_EDGE: i32 = 256;

/// The number of voxels in a chunk of edge `e`.
pub open spec fn chunk_len(e: int) -> int {
    e * e * e
}

/// The least coordinate of the chunk that holds coordinate `a`.
pub open spec fn key_coord(a: int, e: int) -> int {
    a - a % e
}

/// The key (least corner) of the chunk that holds `p`.
pub open spec fn chunk_key_of(p: Point3i, e: int) -> Point3i {
    Point3i {
        x: key_coord(p.x as int, e) as i32,
        y: key_coord(p.y as int, e) as i32,
        z: key_coord(p.z as int, e) as i32,
    }
}

/// The position of `p` within its chunk, x fastest.
pub open spec fn local_index(p: Point3i, e: int) -> int {
    (p.x as int) % e + e * ((p.y as int) % e + e * ((p.z as int) % e))
}

/// Whether `k` is the least corner of some chunk.
pub open spec fn is_chunk_key(k: Point3i, e: int) -> bool {
    (k.x as int) % e == 0 && (k.y as int) % e == 0 && (k.z as int) % e == 0
}

pub open spec fn ambient_chunk(e: int) -> Seq<Voxel> {
    Seq::new(chunk_len(e) as nat, |i: int| ambient_voxel())
}

/// The contents of chunk `k`: what `m` holds there, or an ambient chunk.
pub open spec fn chunk_or_ambient(m: Map<Point3i, Seq<Voxel>>, k: Point3i, e: int) -> Seq<Voxel> {
    if m.contains_key(k) {
        m[k]
    } else {
        ambient_chunk(e)
    }
}

/// The voxel at `p` in the volume that `m` describes.
pub open spec fn voxel_at(m: Map<Point3i, Seq<Voxel>>, e: int, p: Point3i) -> Voxel {
    chunk_or_ambient(m, chunk_key_of(p, e), e)[local_index(p, e)]
}

/// Two sparse maps describe the same volume: every chunk reads the same, present or ambient.
pub open spec fn same_volume(m1: Map<Point3i, Seq<Voxel>>, m2: Map<Point3i, Seq<Voxel>>, e: int) -> bool {
    forall|k: Point3i| #[trigger] chunk_or_ambient(m1, k, e) == chunk_or_ambient(m2, k, e)
}

/// Every chunk held has a chunk key and a full set of voxels.
pub open spec fn valid_chunks(m: Map<Point3i, Seq<Voxel>>, e: int) -> bool {
    forall|k: Point3i| #[trigger] m.contains_key(k) ==> is_chunk_key(k, e) && m[k].len() == chunk_len(e)
}

pub open spec fn valid_edge(e: int) -> bool {
    1 <= e <= MAX_CHUNK_EDGE
}

/// Maps that describe the same volume give every voxel the same value.
pub proof fn lemma_same_volume_voxels(m1: Map<Point3i, Seq<Voxel>>, m2: Map<Point3i, Seq<Voxel>>, e: int)
    requires
        same_volume(m1, m2, e),
    ensures
        forall|p: Point3i| #[trigger] voxel_at(m1, e, p) == voxel_at(m2, e, p),
{
    assert forall|p: Point3i| #[trigger] voxel_at(m1, e, p) == voxel_at(m2, e, p) by {
        assert(chunk_or_ambient(m1, chunk_key_of(p, e), e) == chunk_or_ambient(m2, chunk_key_of(p, e), e));
    }
}

proof fn lemma_chunk_len_bound(e: int)
    requires
        valid_edge(e),
    ensures
        1 <= chunk_len(e) <= MAX_CHUNK_EDGE * MAX_CHUNK_EDGE * MAX_CHUNK_EDGE,
{
    assert(1 <= e * e <= MAX_CHUNK_EDGE * MAX_CHUNK_EDGE) by (nonlinear_arith)
        requires 1 <= e <= MAX_CHUNK_EDGE;
    assert(1 <= e * e * e <= MAX_CHUNK_EDGE * MAX_CHUNK_EDGE * MAX_CHUNK_EDGE) by (nonlinear_arith)
        requires 1 <= e <= MAX_CHUNK_EDGE, 1 <= e * e <= MAX_CHUNK_EDGE * MAX_CHUNK_EDGE;
}

proof fn lemma_local_index_bound(p: Point3i, e: int)
    requires
        valid_edge(e),
    ensures
        0 <= local_index(p, e) < chunk_len(e),
{
    lemma_mod_bound(p.x as int, e);
    lemma_mod_bound(p.y as int, e);
    lemma_mod_bound(p.z as int, e);
    let (a, b, c) = ((p.x as int) % e, (p.y as int) % e, (p.z as int) % e);
    assert(0 <= a + e * (b + e * c) < e * e * e) by (nonlinear_arith)
        requires 0 <= a < e, 0 <= b < e, 0 <= c < e;
}

/// Distinct points differ in their chunk or in their place within it.
proof fn lemma_address_injective(p: Point3i, q: Point3i, e: int)
    requires
        valid_edge(e),
        chunk_key_of(p, e) == chunk_key_of(q, e),
        local_index(p, e) == local_index(q, e),
        p.in_bounds(),
        q.in_bounds(),
    ensures
        p == q,
{
    lemma_mod_bound(p.x as int, e);
    lemma_mod_bound(p.y as int, e);
    lemma_mod_bound(p.z as int, e);
    lemma_mod_bound(q.x as int, e);
    lemma_mod_bound(q.y as int, e);
    lemma_mod_bound(q.z as int, e);
    let i = local_index(p, e);
    let wp = (p.y as int) % e + e * ((p.z as int) % e);
    let wq = (q.y as int) % e + e * ((q.z as int) % e);
    assert(i == wp * e + (p.x as int) % e) by (nonlinear_arith)
        requires i == (p.x as int) % e + e * wp;
    assert(i == wq * e + (q.x as int) % e) by (nonlinear_arith)
        requires i == (q.x as int) % e + e * wq;
    lemma_fundamental_div_mod_converse(i, e, wp, (p.x as int) % e);
    lemma_fundamental_div_mod_converse(i, e, wq, (q.x as int) % e);
    assert(wp == ((p.z as int) % e) * e + (p.y as int) % e) by (nonlinear_arith)
        requires wp == (p.y as int) % e + e * ((p.z as int) % e);
    assert(wq == ((q.z as int) % e) * e + (q.y as int) % e) by (nonlinear_arith)
        requires wq == (q.y as int) % e + e * ((q.z as int) % e);
    lemma_fundamental_div_mod_converse(wp, e, (p.z as int) % e, (p.y as int) % e);
    lemma_fundamental_div_mod_converse(wq, e, (q.z as int) % e, (q.y as int) % e);
}

/// The key of the chunk holding an in-bounds point is a chunk key, and in bounds too.
proof fn lemma_key_of(p: Point3i, e: int)
    requires
        valid_edge(e),
        p.in_bounds(),
    ensures
        is_chunk_key(chunk_key_of(p, e), e),
        chunk_key_of(p, e).x == key_coord(p.x as int, e),
        chunk_key_of(p, e).y == key_coord(p.y as int, e),
        chunk_key_of(p, e).z == key_coord(p.z as int, e),
{
    lemma_key_coord(p.x as int, e);
    lemma_key_coord(p.y as int, e);
    lemma_key_coord(p.z as int, e);
}

proof fn lemma_key_coord(a: int, e: int)
    requires
        valid_edge(e),
        -COORD_LIMIT <= a <= COORD_LIMIT,
    ensures
        key_coord(a, e) % e == 0,
        a - e < key_coord(a, e) <= a,
{
    lemma_mod_bound(a, e);
    lemma_fundamental_div_mod(a, e);
    let q = a / e;
    assert(key_coord(a, e) == q * e + 0) by (nonlinear_arith)
        requires a == e * q + a % e, key_coord(a, e) == a - a % e;
    lemma_fundamental_div_mod_converse(key_coord(a, e), e, q, 0);
}

/// The least coordinate of the chunk holding `a`, for a chunk edge `e`.
fn key_coord_exec(a: i32, e: i32) -> (r: i32)
    requires
        valid_edge(e as int),
        -COORD_LIMIT <= a <= COORD_LIMIT,
    ensures
        r == key_coord(a as int, e as int),
{
    let rem: i64 = if a >= 0 {
        ((a as u32) % (e as u32)) as i64
    } else {
        let m: u32 = ((-(a as i64)) as u32) % (e as u32);
        if m == 0 { 0 } else { e as i64 - m as i64 }
    };
    proof {
        let ai = a as int;
        let ei = e as int;
        if a >= 0 {
            lemma_fundamental_div_mod(ai, ei);
            lemma_mod_bound(ai, ei);
        } else {
            let n = -ai;
            lemma_fundamental_div_mod(n, ei);
            lemma_mod_bound(n, ei);
            let q = n / ei;
            let m = n % ei;
            if m == 0 {
                assert(ai == (-q) * ei + 0) by (nonlinear_arith)
                    requires n == ei * q + m, m == 0, ai == -n;
                lemma_fundamental_div_mod_converse(ai, ei, -q, 0);
            } else {
                assert(ai == (-q - 1) * ei + (ei - m)) by (nonlinear_arith)
                    requires n == ei * q + m, ai == -n;
                lemma_fundamental_div_mod_converse(ai, ei, -q - 1, ei - m);
            }
        }
    }
    (a as i64 - rem) as i32
}

/// The key of the chunk that holds `p`.
pub fn chunk_key_for_point(p: Point3i, e: i32) -> (r: Point3i)
    requires
        valid_edge(e as int),
        p.in_bounds(),
    ensures
        r == chunk_key_of(p, e as int),
        is_chunk_key(r, e as int),
{
    proof {
        lemma_key_of(p, e as int);
        lemma_key_coord(p.x as int, e as int);
        lemma_key_coord(p.y as int, e as int);
        lemma_key_coord(p.z as int, e as int);
    }
    Point3i { x: key_coord_exec(p.x, e), y: key_coord_exec(p.y, e), z: key_coord_exec(p.z, e) }
}

/// A sparse map from chunk keys to dense chunks of voxels, all of one cubic shape.
pub struct ChunkMap {
    edge: i32,
    keys: Vec<Point3i>,
    chunks: Vec<Vec<Voxel>>,
    model: Ghost<Map<Point3i, Seq<Voxel>>>,
}

impl View for ChunkMap {
    type V = Map<Point3i, Seq<Voxel>>;

    closed spec fn view(&self) -> Map<Point3i, Seq<Voxel>> {
        self.model@
    }
}

impl ChunkMap {
    /// The edge length of every chunk.
    pub closed spec fn edge_spec(&self) -> int {
        self.edge as int
    }

    pub closed spec fn wf(&self) -> bool {
        &&& valid_edge(self.edge as int)
        &&& self.keys.len() == self.chunks.len()
        &&& forall|i: int, j: int| 0 <= i < self.keys.len() && 0 <= j < self.keys.len() && i != j
            ==> self.keys[i] != self.keys[j]
        &&& forall|i: int| 0 <= i < self.keys.len() ==> {
            &&& #[trigger] self.model@.contains_key(self.keys[i])
            &&& self.model@[self.keys[i]] == self.chunks[i]@
            &&& is_chunk_key(self.keys[i], self.edge as int)
            &&& self.chunks[i]@.len() == chunk_len(self.edge as int)
        }
        &&& forall|k: Point3i| #[trigger] self.model@.contains_key(k) ==> exists|i: int|
            0 <= i < self.keys.len() && self.keys[i] == k
    }

    pub proof fn lemma_wf(&self)
        requires
            self.wf(),
        ensures
            valid_edge(self.edge_spec()),
            valid_chunks(self@, self.edge_spec()),
            self@.dom().finite(),
    {
        assert forall|k: Point3i| #[trigger] self@.contains_key(k) implies is_chunk_key(k, self.edge_spec())
            && self@[k].len() == chunk_len(self.edge_spec()) by {
            let i = choose|i: int| 0 <= i < self.keys.len() && self.keys[i] == k;
            assert(self.model@.contains_key(self.keys[i]));
        }
        let keys = self.keys@.to_set();
        assert forall|k: Point3i| self@.dom().contains(k) implies keys.contains(k) by {
            let i = choose|i: int| 0 <= i < self.keys.len() && self.keys[i] == k;
            assert(self.keys@[i] == k);
        }
        vstd::set_lib::lemma_len_subset(self@.dom(), keys);
    }

    /// An empty map of chunks with edge `edge`: every chunk is ambient.
    pub fn new(edge: i32) -> (r: ChunkMap)
        requires
            valid_edge(edge as int),
        ensures
            r.wf(),
            r@ == Map::<Point3i, Seq<Voxel>>::empty(),
            r.edge_spec() == edge,
    {
        ChunkMap { edge, keys: Vec::new(), chunks: Vec::new(), model: Ghost(Map::empty()) }
    }

    pub fn edge(&self) -> (r: i32)
        ensures
            r == self.edge_spec(),
    {
        self.edge
    }

    /// The number of voxels in one chunk.
    pub fn chunk_len(&self) -> (r: usize)
        requires
            self.wf(),
        ensures
            r == chunk_len(self.edge_spec()),
    {
        proof {
            lemma_chunk_len_bound(self.edge as int);
        }
        let e = self.edge as usize;
        assert(e * e <= 65536) by (nonlinear_arith)
            requires 1 <= e <= 256;
        assert(e * e * e <= 16777216) by (nonlinear_arith)
            requires 1 <= e <= 256, e * e <= 65536;
        e * e * e
    }

    fn find(&self, key: Point3i) -> (r: Option<usize>)
        requires
            self.wf(),
        ensures
            match r {
                Some(i) => i < self.keys.len() && self.keys[i as int] == key && self@.contains_key(key),
                None => !self@.contains_key(key),
            },
    {
        let mut i: usize = 0;
        while i < self.keys.len()
            invariant
                0 <= i <= self.keys.len(),
                self.wf(),
                forall|j: int| 0 <= j < i ==> self.keys[j] != key,
            decreases self.keys.len() - i,
        {
            if self.keys[i] == key {
                assert(self.model@.contains_key(self.keys[i as int]));
                return Some(i);
            }
            i = i + 1;
        }
        None
    }

    /// Whether the map holds chunk `key`.
    pub fn contains_chunk(&self, key: Point3i) -> (r: bool)
        requires
            self.wf(),
        ensures
            r == self@.contains_key(key),
    {
        self.find(key).is_some()
    }

    /// A copy of chunk `key`, or an ambient chunk where the map holds none.
    pub fn chunk_or_ambient(&self, key: Point3i) -> (r: Vec<Voxel>)
        requires
            self.wf(),
        ensures
            r@ == chunk_or_ambient(self@, key, self.edge_spec()),
    {
        match self.find(key) {
            Some(i) => {
                let c = copy_voxels(&self.chunks[i]);
                c
            },
            None => {
                let n = self.chunk_len();
                let c = vec![Voxel::ambient(); n];
                assert(c@ =~= ambient_chunk(self.edge as int));
                c
            },
        }
    }

    /// Stores `voxels` as chunk `key`, replacing what was there.
    pub fn write_chunk(&mut self, key: Point3i, voxels: Vec<Voxel>)
        requires
            old(self).wf(),
            is_chunk_key(key, old(self).edge_spec()),
            voxels@.len() == chunk_len(old(self).edge_spec()),
        ensures
            final(self).wf(),
            final(self).edge_spec() == old(self).edge_spec(),
            final(self)@ == old(self)@.insert(key, voxels@),
    {
        let ghost new_model = self.model@.insert(key, voxels@);
        match self.find(key) {
            Some(i) => {
                self.chunks.set(i, voxels);
                self.model = Ghost(new_model);
                assert forall|k: Point3i| #[trigger] self.model@.contains_key(k) implies exists|j: int|
                    0 <= j < self.keys.len() && self.keys[j] == k by {
                    if k != key {
                        assert(old(self).model@.contains_key(k));
                        let j = choose|j: int| 0 <= j < old(self).keys.len() && old(self).keys[j] == k;
                        assert(self.keys[j] == k);
                    } else {
                        assert(self.keys[i as int] == k);
                    }
                }
            },
            None => {
                let ghost n = self.keys.len() as int;
                self.keys.push(key);
                self.chunks.push(voxels);
                self.model = Ghost(new_model);
                assert forall|k: Point3i| #[trigger] self.model@.contains_key(k) implies exists|j: int|
                    0 <= j < self.keys.len() && self.keys[j] == k by {
                    if k != key {
                        assert(old(self).model@.contains_key(k));
                        let j = choose|j: int| 0 <= j < old(self).keys.len() && old(self).keys[j] == k;
                        assert(self.keys[j] == k);
                    } else {
                        assert(self.keys[n] == k);
                    }
                }
                assert forall|i: int| 0 <= i < self.keys.len() implies #[trigger] self.model@.contains_key(self.keys[i])
                    && self.model@[self.keys[i]] == self.chunks[i]@ by {
                    if i < n {
                        assert(old(self).model@.contains_key(old(self).keys[i]));
                        assert(self.keys[i] != key);
                    }
                }
            },
        }
    }

    /// The keys of the chunks the map holds.
    pub fn chunk_keys(&self) -> (r: Vec<Point3i>)
        requires
            self.wf(),
        ensures
            forall|k: Point3i| r@.contains(k) <==> self@.contains_key(k),
    {
        let mut r: Vec<Point3i> = Vec::new();
        let mut i: usize = 0;
        while i < self.keys.len()
            invariant
                0 <= i <= self.keys.len(),
                self.wf(),
                r@ == self.keys@.subrange(0, i as int),
            decreases self.keys.len() - i,
        {
            r.push(self.keys[i]);
            i = i + 1;
        }
        assert(r@ =~= self.keys@);
        assert forall|k: Point3i| r@.contains(k) <==> self@.contains_key(k) by {
            if r@.contains(k) {
                let j = choose|j: int| 0 <= j < r@.len() && r@[j] == k;
                assert(self.model@.contains_key(self.keys[j]));
            }
            if self@.contains_key(k) {
                let j = choose|j: int| 0 <= j < self.keys.len() && self.keys[j] == k;
                assert(r@[j] == k);
            }
        }
        r
    }

    /// Takes the map apart into its chunk keys and chunks, in matching order.
    pub fn into_entries(self) -> (r: (Vec<Point3i>, Vec<Vec<Voxel>>))
        requires
            self.wf(),
        ensures
            r.0.len() == r.1.len(),
            forall|i: int, j: int| 0 <= i < r.0.len() && 0 <= j < r.0.len() && i != j ==> r.0[i] != r.0[j],
            forall|i: int| 0 <= i < r.0.len() ==> #[trigger] self@.contains_key(r.0[i]) && self@[r.0[i]] == r.1[i]@,
            forall|k: Point3i| #[trigger] self@.contains_key(k) ==> exists|i: int| 0 <= i < r.0.len() && r.0[i] == k,
    {
        (self.keys, self.chunks)
    }

    /// The voxel at `p`.
    pub fn get_voxel(&self, p: Point3i) -> (r: Voxel)
        requires
            self.wf(),
            p.in_bounds(),
        ensures
            r == voxel_at(self@, self.edge_spec(), p),
    {
        let key = chunk_key_for_point(p, self.edge);
        let idx = local_index_exec(p, self.edge);
        proof {
            lemma_local_index_bound(p, self.edge as int);
        }
        match self.find(key) {
            Some(i) => {
                proof {
                    assert(self.model@.contains_key(self.keys[i as int]));
                }
                self.chunks[i][idx]
            },
            None => Voxel::ambient(),
        }
    }

    /// Sets the voxel at `p` to `v`, materialising its chunk if it was ambient. No other voxel
    /// changes.
    pub fn set_voxel(&mut self, p: Point3i, v: Voxel)
        requires
            old(self).wf(),
            p.in_bounds(),
        ensures
            final(self).wf(),
            final(self).edge_spec() == old(self).edge_spec(),
            final(self)@ == old(self)@.insert(
                chunk_key_of(p, old(self).edge_spec()),
                chunk_or_ambient(old(self)@, chunk_key_of(p, old(self).edge_spec()), old(self).edge_spec())
                    .update(local_index(p, old(self).edge_spec()), v),
            ),
    {
        let key = chunk_key_for_point(p, self.edge);
        let idx = local_index_exec(p, self.edge);
        proof {
            lemma_local_index_bound(p, self.edge as int);
            lemma_chunk_len_bound(self.edge as int);
        }
        match self.find(key) {
            Some(i) => {
                let ghost new_chunk = self.chunks[i as int]@.update(idx as int, v);
                let ghost new_model = self.model@.insert(key, new_chunk);
                let mut chunk: Vec<Voxel> = Vec::new();
                std::mem::swap(&mut self.chunks[i], &mut chunk);
                assert(chunk@ == old(self).chunks[i as int]@);
                chunk.set(idx, v);
                assert(chunk@ == new_chunk);
                std::mem::swap(&mut self.chunks[i], &mut chunk);
                assert(self.chunks[i as int]@ == new_chunk);
                assert(forall|j: int| 0 <= j < self.chunks.len() && j != i ==> self.chunks[j] == old(self).chunks[j]);
                assert(self.keys == old(self).keys);
                self.model = Ghost(new_model);
                assert forall|j: int| 0 <= j < self.keys.len() implies #[trigger] self.model@.contains_key(self.keys[j])
                    && self.model@[self.keys[j]] == self.chunks[j]@ by {
                    if j != i {
                        assert(old(self).model@.contains_key(old(self).keys[j]));
                    }
                }
                assert forall|k: Point3i| #[trigger] self.model@.contains_key(k) implies exists|j: int|
                    0 <= j < self.keys.len() && self.keys[j] == k by {
                    if k != key {
                        assert(old(self).model@.contains_key(k));
                        let j = choose|j: int| 0 <= j < old(self).keys.len() && old(self).keys[j] == k;
                        assert(self.keys[j] == k);
                    } else {
                        assert(self.keys[i as int] == k);
                    }
                }
            },
            None => {
                let n = self.chunk_len();
                let mut chunk = vec![Voxel::ambient(); n];
                assert(chunk@ =~= ambient_chunk(self.edge as int));
                chunk.set(idx, v);
                self.write_chunk(key, chunk);
            },
        }
    }
}

/// Setting one voxel leaves every other voxel as it was.
pub proof fn lemma_set_voxel_frame(m: Map<Point3i, Seq<Voxel>>, e: int, p: Point3i, v: Voxel, q: Point3i)
    requires
        valid_edge(e),
        valid_chunks(m, e),
        p.in_bounds(),
        q.in_bounds(),
    ensures
        voxel_at(
            m.insert(chunk_key_of(p, e), chunk_or_ambient(m, chunk_key_of(p, e), e).update(local_index(p, e), v)),
            e,
            q,
        ) == if q == p { v } else { voxel_at(m, e, q) },
{
    lemma_local_index_bound(p, e);
    lemma_local_index_bound(q, e);
    lemma_key_of(p, e);
    if q != p && chunk_key_of(p, e) == chunk_key_of(q, e) && local_index(p, e) == local_index(q, e) {
        lemma_address_injective(p, q, e);
    }
}

fn local_index_exec(p: Point3i, e: i32) -> (r: usize)
    requires
        valid_edge(e as int),
        p.in_bounds(),
    ensures
        r == local_index(p, e as int),
{
    let kx = key_coord_exec(p.x, e);
    let ky = key_coord_exec(p.y, e);
    let kz = key_coord_exec(p.z, e);
    proof {
        lemma_key_coord(p.x as int, e as int);
        lemma_key_coord(p.y as int, e as int);
        lemma_key_coord(p.z as int, e as int);
    }
    let lx = (p.x - kx) as usize;
    let ly = (p.y - ky) as usize;
    let lz = (p.z - kz) as usize;
    let eu = e as usize;
    assert(eu * lz < 65536) by (nonlinear_arith)
        requires 0 <= lz < eu, eu <= 256;
    let w = ly + eu * lz;
    assert(w < eu * eu) by (nonlinear_arith)
        requires 0 <= ly < eu, 0 <= lz < eu, w == ly + eu * lz, 1 <= eu;
    assert(eu * w < 16777216) by (nonlinear_arith)
        requires w < eu * eu, eu <= 256, 0 <= w, 1 <= eu;
    lx + eu * w
}

fn copy_voxels(v: &Vec<Voxel>) -> (r: Vec<Voxel>)
    ensures
        r@ == v@,
{
    let mut r: Vec<Voxel> = Vec::with_capacity(v.len());
    let mut i: usize = 0;
    while i < v.len()
        invariant
            0 <= i <= v.len(),
            r@ == v@.subrange(0, i as int),
        decreases v.len() - i,
    {
        r.push(v[i]);
        i = i + 1;
    }
    assert(r@ =~= v@);
    r
}

} // verus!
