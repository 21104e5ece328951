//! The world map: a rectangular grid of chunks addressed in particle
//! units, plus the set of currently active chunks.
use vstd::prelude::*;
use vstd::pervasive::VecAdditionalExecFns;

use crate::chunk::{chunk_agrees_with_map, chunk_get_spec, chunk_set_spec, chunk_sim_ok,
    has_liquid, Chunk, ChunkView, ParticleMove, ACTIVE_CHUNK_RANGE, CHUNK_SIZE};
use crate::coords::GridPos;
use crate::interaction::{InteractionPair, InteractionRule, InteractionTable};
use crate::particle::{Gem, Ore, Particle, Special, WorldGenType};
use crate::queue::{queue_has_source, queue_has_target, queue_wf, MoveQueue};

verus! {

/// The exclusive bound on world dimensions in particle units; keeps every
/// index computation comfortably inside `u32`.
pub const WORLD_DIM_LIMIT: u32 = 0x0010_0000;

/// How many chunks cover `map_width` particles.
pub open spec fn spec_chunk_count(d: int) -> int {
    (d + 31) / 32
}

/// How many chunk columns a map of the given particle width has.
pub fn chunk_count_width(map_width: u32) -> (r: u32)
    requires
        map_width <= WORLD_DIM_LIMIT,
    ensures
        r == spec_chunk_count(map_width as int),
{
    map_width / CHUNK_SIZE + (if map_width % CHUNK_SIZE == 0 {
        0
    } else {
        1
    })
}

/// How many chunk rows a map of the given particle height has.
pub fn chunk_count_height(map_height: u32) -> (r: u32)
    requires
        map_height <= WORLD_DIM_LIMIT,
    ensures
        r == spec_chunk_count(map_height as int),
{
    map_height / CHUNK_SIZE + (if map_height % CHUNK_SIZE == 0 {
        0
    } else {
        1
    })
}

/// The mathematical state of a world map.
pub struct WorldMapView {
    pub width: u32,
    pub height: u32,
    pub chunks: Seq<ChunkView>,
    pub active_chunks: Seq<GridPos>,
}

impl WorldMapView {
    /// Chunk columns of this map.
    pub open spec fn cols(self) -> int {
        spec_chunk_count(self.width as int)
    }

    /// Chunk rows of this map.
    pub open spec fn rows(self) -> int {
        spec_chunk_count(self.height as int)
    }

    /// The chunk at chunk coordinates `(cx, cy)`.
    pub open spec fn chunk_at(self, cx: int, cy: int) -> ChunkView {
        self.chunks[cx * self.rows() + cy]
    }

    /// Whether `pos` is a world position inside the map.
    pub open spec fn valid_pos(self, pos: GridPos) -> bool {
        pos.x < self.width && pos.y < self.height
    }

    /// Well-formedness: dimensions in range, exactly one chunk per grid
    /// cell, each chunk well-formed and at the coordinate its flat index
    /// encodes, and every active coordinate inside the chunk grid.
    pub open spec fn wf(self) -> bool {
        &&& 1 <= self.width <= WORLD_DIM_LIMIT
        &&& 1 <= self.height <= WORLD_DIM_LIMIT
        &&& self.chunks.len() == self.cols() * self.rows()
        &&& forall|i: int|
            0 <= i < self.chunks.len() ==> {
                &&& (#[trigger] self.chunks[i]).wf()
                &&& self.chunks[i].position.x < self.cols()
                &&& self.chunks[i].position.y < self.rows()
                &&& self.chunks[i].position.x * self.rows() + self.chunks[i].position.y == i
            }
        &&& forall|k: int|
            0 <= k < self.active_chunks.len() ==> (#[trigger] self.active_chunks[k]).x
                < self.cols() && self.active_chunks[k].y < self.rows()
        &&& forall|k1: int, k2: int|
            0 <= k1 < k2 < self.active_chunks.len() ==> (#[trigger] self.active_chunks[k1]) != (
            #[trigger] self.active_chunks[k2])
    }

    /// The particle at a world position: `None` for an empty cell or a
    /// position outside the map.
    pub open spec fn get(self, pos: GridPos) -> Option<Particle> {
        if self.valid_pos(pos) {
            self.chunk_at(pos.x as int / 32, pos.y as int / 32).cells[(pos.x as int % 32) * 32 + (
            pos.y as int % 32)]
        } else {
            None
        }
    }
}

/// Two in-range chunk coordinates with the same flat index are equal.
pub proof fn lemma_flat_index_unique(x1: int, y1: int, x2: int, y2: int, rows: int)
    requires
        0 <= y1 < rows,
        0 <= y2 < rows,
        0 <= x1,
        0 <= x2,
        x1 * rows + y1 == x2 * rows + y2,
    ensures
        x1 == x2,
        y1 == y2,
{
    assert(x1 == x2 && y1 == y2) by (nonlinear_arith)
        requires
            0 <= y1 < rows,
            0 <= y2 < rows,
            0 <= x1,
            0 <= x2,
            x1 * rows + y1 == x2 * rows + y2,
    ;
}

/// A flat index built from in-range chunk coordinates is in range.
pub proof fn lemma_flat_index_bound(x: int, y: int, cols: int, rows: int)
    requires
        0 <= x < cols,
        0 <= y < rows,
    ensures
        0 <= x * rows + y < cols * rows,
{
    assert(0 <= x * rows + y < cols * rows) by (nonlinear_arith)
        requires
            0 <= x < cols,
            0 <= y < rows,
    ;
}

/// The world map: dimensions in particle units, a flat vector of chunks
/// (chunk `(cx, cy)` at index `cx * rows + cy`), and the active set.
pub struct WorldMap {
    pub width: u32,
    pub height: u32,
    pub chunks: Vec<Chunk>,
    pub active_chunks: Vec<GridPos>,
}

impl View for WorldMap {
    type V = WorldMapView;

    open spec fn view(&self) -> WorldMapView {
        WorldMapView {
            width: self.width,
            height: self.height,
            chunks: self.chunks@.map_values(|c: Chunk| c@),
            active_chunks: self.active_chunks@,
        }
    }
}

impl WorldMap {
    /// Creates a world of the given particle dimensions with every cell
    /// empty and no chunk active.
    pub fn empty(width: u32, height: u32) -> (r: Self)
        requires
            1 <= width <= WORLD_DIM_LIMIT,
            1 <= height <= WORLD_DIM_LIMIT,
        ensures
            r@.wf(),
            r@.width == width,
            r@.height == height,
            r@.active_chunks.len() == 0,
            forall|pos: GridPos| r@.get(pos) is None,
            forall|i: int|
                0 <= i < r@.chunks.len() ==> !(#[trigger] r@.chunks[i]).dirty
                    && !r@.chunks[i].should_simulate,
    {
        let cols = chunk_count_width(width);
        let rows = chunk_count_height(height);
        let mut chunks: Vec<Chunk> = Vec::new();
        let mut cx: u32 = 0;
        while cx < cols
            invariant
                cx <= cols,
                cols == spec_chunk_count(width as int),
                rows == spec_chunk_count(height as int),
                1 <= width <= WORLD_DIM_LIMIT,
                1 <= height <= WORLD_DIM_LIMIT,
                chunks@.len() == cx * rows,
                forall|i: int|
                    0 <= i < chunks@.len() ==> {
                        &&& (#[trigger] chunks@[i])@.wf()
                        &&& chunks@[i]@.position.x < cols
                        &&& chunks@[i]@.position.y < rows
                        &&& chunks@[i]@.position.x * rows + chunks@[i]@.position.y == i
                        &&& forall|c: int| 0 <= c < 1024 ==> chunks@[i]@.cells[c] is None
                        &&& !chunks@[i]@.dirty
                        &&& !chunks@[i]@.should_simulate
                    },
            decreases cols - cx,
        {
            let mut cy: u32 = 0;
            while cy < rows
                invariant
                    cy <= rows,
                    cx < cols,
                    cols == spec_chunk_count(width as int),
                    rows == spec_chunk_count(height as int),
                    1 <= width <= WORLD_DIM_LIMIT,
                    1 <= height <= WORLD_DIM_LIMIT,
                    chunks@.len() == cx * rows + cy,
                    forall|i: int|
                        0 <= i < chunks@.len() ==> {
                            &&& (#[trigger] chunks@[i])@.wf()
                            &&& chunks@[i]@.position.x < cols
                            &&& chunks@[i]@.position.y < rows
                            &&& chunks@[i]@.position.x * rows + chunks@[i]@.position.y == i
                            &&& forall|c: int| 0 <= c < 1024 ==> chunks@[i]@.cells[c] is None
                            &&& !chunks@[i]@.dirty
                            &&& !chunks@[i]@.should_simulate
                        },
                decreases rows - cy,
            {
                let chunk = Chunk::new(GridPos { x: cx, y: cy });
                chunks.push(chunk);
                cy += 1;
            }
            proof {
                assert((cx + 1) * rows == cx * rows + rows) by (nonlinear_arith);
            }
            cx += 1;
        }
        let r = WorldMap { width, height, chunks, active_chunks: Vec::new() };
        proof {
            assert forall|pos: GridPos| r@.get(pos) is None by {
                if r@.valid_pos(pos) {
                    let cxp = pos.x as int / 32;
                    let cyp = pos.y as int / 32;
                    lemma_flat_index_bound(cxp, cyp, r@.cols(), r@.rows());
                    let i = cxp * r@.rows() + cyp;
                    assert(r@.chunks[i].cells[(pos.x as int % 32) * 32 + (pos.y as int % 32)]
                        is None);
                }
            }
        }
        r
    }

    /// Whether a world position lies inside the map bounds.
    pub fn within_bounds(&self, position: GridPos) -> (r: bool)
        ensures
            r == self@.valid_pos(position),
    {
        position.x < self.width && position.y < self.height
    }

    /// Whether a world position is inside the map and its cell is empty.
    pub fn is_valid_position(&self, position: GridPos) -> (r: bool)
        requires
            self@.wf(),
        ensures
            r == (self@.valid_pos(position) && self@.get(position) is None),
    {
        if !self.within_bounds(position) {
            return false;
        }
        self.get_particle_at(position).is_none()
    }

    /// The particle at a world position inside the map.
    pub fn get_particle_at(&self, position: GridPos) -> (r: Option<Particle>)
        requires
            self@.wf(),
            self@.valid_pos(position),
        ensures
            r == self@.get(position),
    {
        let cx = position.x / CHUNK_SIZE;
        let cy = position.y / CHUNK_SIZE;
        proof {
            lemma_flat_index_bound(cx as int, cy as int, self@.cols(), self@.rows());
        }
        let n = self.chunks.len();
        proof {
            assert(self@.cols() * self@.rows() == self@.chunks.len());
            assert(self@.chunks.len() == n);
        }
        let rows = chunk_count_height(self.height) as usize;
        let idx = cx as usize * rows + cy as usize;
        let chunk = &self.chunks[idx];
        let local = GridPos { x: position.x % CHUNK_SIZE, y: position.y % CHUNK_SIZE };
        let r = chunk.get_particle(local);
        proof {
            assert(chunk_get_spec(self@.chunks[idx as int], local) == self@.get(position));
        }
        r
    }

    /// Writes (or clears) the cell at a world position, marking its chunk
    /// dirty; a no-op if the position is outside the map.
    pub fn set_particle_at(&mut self, position: GridPos, particle: Option<Particle>)
        requires
            old(self)@.wf(),
        ensures
            final(self)@.wf(),
            final(self)@.width == old(self)@.width,
            final(self)@.height == old(self)@.height,
            final(self)@.active_chunks == old(self)@.active_chunks,
            !old(self)@.valid_pos(position) ==> final(self)@ == old(self)@,
            old(self)@.valid_pos(position) ==> final(self)@.chunks == old(self)@.chunks.update(
                (position.x as int / 32) * old(self)@.rows() + (position.y as int / 32),
                chunk_set_spec(
                    old(self)@.chunk_at(position.x as int / 32, position.y as int / 32),
                    GridPos { x: position.x % 32, y: position.y % 32 },
                    particle,
                ),
            ),
    {
        if !self.within_bounds(position) {
            proof {
                assert(self@ == old(self)@);
            }
            return ;
        }
        let cx = position.x / CHUNK_SIZE;
        let cy = position.y / CHUNK_SIZE;
        proof {
            lemma_flat_index_bound(cx as int, cy as int, self@.cols(), self@.rows());
        }
        let n = self.chunks.len();
        proof {
            assert(self@.cols() * self@.rows() == self@.chunks.len());
            assert(self@.chunks.len() == n);
        }
        let rows = chunk_count_height(self.height) as usize;
        let idx = cx as usize * rows + cy as usize;
        let local = GridPos { x: position.x % CHUNK_SIZE, y: position.y % CHUNK_SIZE };
        proof {
            assert(self@.chunks[idx as int].wf());
        }
        let chunk = &mut self.chunks[idx];
        chunk.set_particle(local, particle);
        proof {
            let ov = old(self)@;
            let v = self@;
            assert(v.chunks =~= ov.chunks.update(
                idx as int,
                chunk_set_spec(ov.chunks[idx as int], local, particle),
            ));
            assert forall|i: int| 0 <= i < v.chunks.len() implies {
                &&& (#[trigger] v.chunks[i]).wf()
                &&& v.chunks[i].position.x < v.cols()
                &&& v.chunks[i].position.y < v.rows()
                &&& v.chunks[i].position.x * v.rows() + v.chunks[i].position.y == i
            } by {
                if i != idx as int {
                    assert(v.chunks[i] == ov.chunks[i]);
                    assert(ov.chunks[i].wf());
                } else {
                    assert(ov.chunks[i].wf());
                }
            }
            assert forall|k: int| 0 <= k < v.active_chunks.len() implies (
            #[trigger] v.active_chunks[k]).x < v.cols() && v.active_chunks[k].y < v.rows() by {
                assert(ov.active_chunks[k].x < ov.cols() && ov.active_chunks[k].y < ov.rows());
            }
            assert forall|k1: int, k2: int| 0 <= k1 < k2 < v.active_chunks.len() implies (
            #[trigger] v.active_chunks[k1]) != (#[trigger] v.active_chunks[k2]) by {
                assert(ov.active_chunks[k1] != ov.active_chunks[k2]);
            }
        }
    }

    /// The chunk at a chunk-grid coordinate.
    pub fn get_chunk_at(&self, position: &GridPos) -> (r: &Chunk)
        requires
            self@.wf(),
            position.x < self@.cols(),
            position.y < self@.rows(),
        ensures
            r@ == self@.chunk_at(position.x as int, position.y as int),
    {
        proof {
            lemma_flat_index_bound(position.x as int, position.y as int, self@.cols(), self@.rows());
        }
        let n = self.chunks.len();
        proof {
            assert(self@.cols() * self@.rows() == self@.chunks.len());
            assert(self@.chunks.len() == n);
        }
        let rows = chunk_count_height(self.height) as usize;
        let idx = position.x as usize * rows + position.y as usize;
        &self.chunks[idx]
    }

    /// Replaces the chunk at a chunk-grid coordinate.
    pub fn set_chunk_at(&mut self, position: GridPos, chunk: Chunk)
        requires
            old(self)@.wf(),
            position.x < old(self)@.cols(),
            position.y < old(self)@.rows(),
            chunk@.wf(),
            chunk@.position == position,
        ensures
            final(self)@.wf(),
            final(self)@.width == old(self)@.width,
            final(self)@.height == old(self)@.height,
            final(self)@.active_chunks == old(self)@.active_chunks,
            final(self)@.chunks == old(self)@.chunks.update(
                position.x as int * old(self)@.rows() + position.y as int,
                chunk@,
            ),
    {
        proof {
            lemma_flat_index_bound(position.x as int, position.y as int, self@.cols(), self@.rows());
        }
        let n = self.chunks.len();
        proof {
            assert(self@.cols() * self@.rows() == self@.chunks.len());
            assert(self@.chunks.len() == n);
        }
        let rows = chunk_count_height(self.height) as usize;
        let idx = position.x as usize * rows + position.y as usize;
        self.chunks.set(idx, chunk);
        proof {
            let ov = old(self)@;
            let v = self@;
            assert(v.chunks =~= ov.chunks.update(
                position.x as int * ov.rows() + position.y as int,
                chunk@,
            ));
            assert forall|i: int| 0 <= i < v.chunks.len() implies {
                &&& (#[trigger] v.chunks[i]).wf()
                &&& v.chunks[i].position.x < v.cols()
                &&& v.chunks[i].position.y < v.rows()
                &&& v.chunks[i].position.x * v.rows() + v.chunks[i].position.y == i
            } by {
                if i != idx as int {
                    assert(v.chunks[i] == ov.chunks[i]);
                    assert(ov.chunks[i].wf());
                } else {
                    assert(ov.chunks[i].wf());
                }
            }
            assert forall|k: int| 0 <= k < v.active_chunks.len() implies (
            #[trigger] v.active_chunks[k]).x < v.cols() && v.active_chunks[k].y < v.rows() by {
                assert(ov.active_chunks[k].x < ov.cols() && ov.active_chunks[k].y < ov.rows());
            }
            assert forall|k1: int, k2: int| 0 <= k1 < k2 < v.active_chunks.len() implies (
            #[trigger] v.active_chunks[k1]) != (#[trigger] v.active_chunks[k2]) by {
                assert(ov.active_chunks[k1] != ov.active_chunks[k2]);
            }
        }
    }
}


/// A chunk after a refresh: a dirty chunk gets its `should_simulate` flag
/// recomputed and its dirty flag cleared; a clean one is untouched.
pub open spec fn refreshed(c: ChunkView) -> ChunkView {
    if c.dirty {
        ChunkView { dirty: false, should_simulate: has_liquid(c.cells), ..c }
    } else {
        c
    }
}

/// Whether the flat chunk index `i` belongs to some active coordinate.
pub open spec fn active_has_index(v: WorldMapView, i: int) -> bool {
    exists|k: int|
        0 <= k < v.active_chunks.len() && (#[trigger] v.active_chunks[k]).x * v.rows()
            + v.active_chunks[k].y == i
}

/// The map cell once every queued move's source is cleared.
pub open spec fn cleared_get(v: WorldMapView, q: Seq<ParticleMove>, pos: GridPos) -> Option<
    Particle,
> {
    if queue_has_source(q, pos) {
        None
    } else {
        v.get(pos)
    }
}

/// What the apply phase leaves at `pos`: sources are cleared first, then
/// each queued particle lands on its own target if that cell is still
/// free, and every uninvolved cell keeps its occupant.
pub open spec fn apply_point(v: WorldMapView, q: Seq<ParticleMove>, pos: GridPos) -> Option<
    Particle,
> {
    if queue_has_target(q, pos) {
        let m = q[choose|k: int| 0 <= k < q.len() && (#[trigger] q[k]).target_pos == pos];
        if cleared_get(v, q, pos) is None {
            Some(m.particle)
        } else {
            cleared_get(v, q, pos)
        }
    } else {
        cleared_get(v, q, pos)
    }
}

/// Writing one cell changes exactly that cell of the map and no other.
pub proof fn lemma_map_set_get(
    v: WorldMapView,
    pos: GridPos,
    p: Option<Particle>,
    v2: WorldMapView,
    q: GridPos,
)
    requires
        v.wf(),
        v.valid_pos(pos),
        v2.width == v.width,
        v2.height == v.height,
        v2.chunks == v.chunks.update(
            (pos.x as int / 32) * v.rows() + (pos.y as int / 32),
            chunk_set_spec(
                v.chunk_at(pos.x as int / 32, pos.y as int / 32),
                GridPos { x: pos.x % 32, y: pos.y % 32 },
                p,
            ),
        ),
    ensures
        v2.get(q) == if q == pos {
            p
        } else {
            v.get(q)
        },
{
    let ci = (pos.x as int / 32) * v.rows() + (pos.y as int / 32);
    lemma_flat_index_bound(pos.x as int / 32, pos.y as int / 32, v.cols(), v.rows());
    if v2.valid_pos(q) {
        let qc = (q.x as int / 32) * v.rows() + (q.y as int / 32);
        lemma_flat_index_bound(q.x as int / 32, q.y as int / 32, v.cols(), v.rows());
        if qc == ci {
            lemma_flat_index_unique(
                q.x as int / 32,
                q.y as int / 32,
                pos.x as int / 32,
                pos.y as int / 32,
                v.rows(),
            );
            if q != pos {
                assert((q.x as int % 32) * 32 + (q.y as int % 32) != (pos.x as int % 32) * 32 + (
                pos.y as int % 32));
            }
        }
    }
}

/// The flat chunk index of the k-th active coordinate.
pub open spec fn active_flat(v: WorldMapView, k: int) -> int {
    v.active_chunks[k].x * v.rows() + v.active_chunks[k].y
}

/// The committed mid-tick state: each active chunk replaced by its
/// simulated version, every other chunk untouched, nothing else changed.
pub open spec fn committed_ok(v0: WorldMapView, mid: WorldMapView, chs: Seq<ChunkView>) -> bool {
    &&& mid.width == v0.width
    &&& mid.height == v0.height
    &&& mid.active_chunks == v0.active_chunks
    &&& mid.chunks.len() == v0.chunks.len()
    &&& chs.len() == v0.active_chunks.len()
    &&& forall|k: int| 0 <= k < chs.len() ==> mid.chunks[#[trigger] active_flat(v0, k)] == chs[k]
    &&& forall|i: int|
        0 <= i < v0.chunks.len() && !active_has_index(v0, i) ==> #[trigger] mid.chunks[i]
            == v0.chunks[i]
}

/// The chunk phase of one tick: the active chunks simulated one by one
/// against the prior map state, threading the cross-chunk queue from
/// empty, and the results committed at their positions.
pub open spec fn tick_phase_ok(
    v0: WorldMapView,
    t: Seq<(InteractionPair, InteractionRule)>,
    mid: WorldMapView,
    q: Seq<ParticleMove>,
) -> bool {
    exists|chs: Seq<ChunkView>, qs: Seq<Seq<ParticleMove>>|
        #![trigger committed_ok(v0, mid, chs), qs.len()]
        {
            &&& committed_ok(v0, mid, chs)
            &&& qs.len() == v0.active_chunks.len() + 1
            &&& qs[0] == Seq::<ParticleMove>::empty()
            &&& qs[v0.active_chunks.len() as int] == q
            &&& forall|k: int|
                0 <= k < chs.len() ==> #[trigger] chunk_sim_ok(
                    v0,
                    t,
                    v0.chunks[active_flat(v0, k)],
                    chs[k],
                    qs[k],
                    qs[k + 1],
                )
        }
}

impl WorldMap {
    /// Clones of the chunks at the active coordinates, in active order.
    pub fn copy_active_chunks(&self) -> (r: Vec<Chunk>)
        requires
            self@.wf(),
        ensures
            r@.len() == self@.active_chunks.len(),
            forall|k: int|
                0 <= k < r@.len() ==> (#[trigger] r@[k])@ == self@.chunk_at(
                    self@.active_chunks[k].x as int,
                    self@.active_chunks[k].y as int,
                ),
    {
        let mut out: Vec<Chunk> = Vec::new();
        let n = self.active_chunks.len();
        let mut k: usize = 0;
        while k < n
            invariant
                k <= n,
                self@.wf(),
                n == self@.active_chunks.len(),
                out@.len() == k,
                forall|j: int|
                    0 <= j < k ==> (#[trigger] out@[j])@ == self@.chunk_at(
                        self@.active_chunks[j].x as int,
                        self@.active_chunks[j].y as int,
                    ),
            decreases n - k,
        {
            let pos = self.active_chunks[k];
            let chunk = self.get_chunk_at(&pos).clone();
            out.push(chunk);
            k += 1;
        }
        out
    }

    /// Refreshes every active chunk that is marked dirty.
    pub fn update_dirty_chunks(&mut self)
        requires
            old(self)@.wf(),
        ensures
            final(self)@.wf(),
            final(self)@.width == old(self)@.width,
            final(self)@.height == old(self)@.height,
            final(self)@.active_chunks == old(self)@.active_chunks,
            forall|i: int|
                0 <= i < old(self)@.chunks.len() ==> final(self)@.chunks[i] == (
                if active_has_index(old(self)@, i) {
                    refreshed(old(self)@.chunks[i])
                } else {
                    old(self)@.chunks[i]
                }),
            forall|i: int|
                0 <= i < old(self)@.chunks.len() && active_has_index(old(self)@, i) ==> !(
                #[trigger] final(self)@.chunks[i]).dirty && final(self)@.chunks[i].should_simulate
                    == has_liquid(final(self)@.chunks[i].cells),
    {
        let n = self.active_chunks.len();
        let mut k: usize = 0;
        while k < n
            invariant
                k <= n,
                self@.wf(),
                n == old(self)@.active_chunks.len(),
                self@.width == old(self)@.width,
                self@.height == old(self)@.height,
                self@.active_chunks == old(self)@.active_chunks,
                self@.chunks.len() == old(self)@.chunks.len(),
                forall|i: int|
                    0 <= i < old(self)@.chunks.len() ==> self@.chunks[i] == (
                    if exists|j: int|
                        0 <= j < k && (#[trigger] old(self)@.active_chunks[j]).x * old(
                            self,
                        )@.rows() + old(self)@.active_chunks[j].y == i {
                        refreshed(old(self)@.chunks[i])
                    } else {
                        old(self)@.chunks[i]
                    }),
            decreases n - k,
        {
            let pos = self.active_chunks[k];
            let ghost prev = self@;
            let rows = chunk_count_height(self.height) as usize;
            let nn = self.chunks.len();
            proof {
                lemma_flat_index_bound(pos.x as int, pos.y as int, self@.cols(), self@.rows());
                assert(self@.cols() * self@.rows() == self@.chunks.len());
                assert(self@.chunks.len() == nn);
                assert(self@.chunks[pos.x as int * self@.rows() + pos.y as int].wf());
            }
            let idx = pos.x as usize * rows + pos.y as usize;
            let chunk = &mut self.chunks[idx];
            if chunk.dirty {
                chunk.trigger_refresh();
            }
            proof {
                let i0 = pos.x as int * old(self)@.rows() + pos.y as int;
                assert(self@.chunks =~= prev.chunks.update(i0, self@.chunks[i0]));
                assert(self@.chunks[i0] == refreshed(prev.chunks[i0]));
                assert forall|i: int| 0 <= i < old(self)@.chunks.len() implies #[trigger] self@.chunks[i] == (
                if exists|j: int|
                    0 <= j < k + 1 && (#[trigger] old(self)@.active_chunks[j]).x * old(
                        self,
                    )@.rows() + old(self)@.active_chunks[j].y == i {
                    refreshed(old(self)@.chunks[i])
                } else {
                    old(self)@.chunks[i]
                }) by {
                    if i == i0 {
                        assert(old(self)@.active_chunks[k as int].x * old(self)@.rows() + old(
                            self,
                        )@.active_chunks[k as int].y == i);
                        if exists|j: int|
                            0 <= j < k && (#[trigger] old(self)@.active_chunks[j]).x * old(
                                self,
                            )@.rows() + old(self)@.active_chunks[j].y == i {
                            assert(prev.chunks[i] == refreshed(old(self)@.chunks[i]));
                            assert(!prev.chunks[i].dirty);
                        }
                    }
                }
            }
            k += 1;
        }
    }

    /// Recomputes the active region: the chunks within the active range of
    /// the focal world position, clipped to the chunk grid, become active;
    /// every other chunk freezes. Dirty chunks in the new region are
    /// refreshed.
    pub fn update_active_chunks(&mut self, focal: GridPos)
        requires
            old(self)@.wf(),
        ensures
            final(self)@.wf(),
            final(self)@.width == old(self)@.width,
            final(self)@.height == old(self)@.height,
            forall|c: GridPos|
                final(self)@.active_chunks.contains(c) <==> {
                    let cx = focal.x as int / 32;
                    let cy = focal.y as int / 32;
                    &&& c.x < final(self)@.cols()
                    &&& c.y < final(self)@.rows()
                    &&& cx - ACTIVE_CHUNK_RANGE <= c.x <= cx + ACTIVE_CHUNK_RANGE
                    &&& cy - ACTIVE_CHUNK_RANGE <= c.y <= cy + ACTIVE_CHUNK_RANGE
                },
            forall|i: int|
                0 <= i < old(self)@.chunks.len() ==> final(self)@.chunks[i] == (
                if active_has_index(final(self)@, i) {
                    refreshed(old(self)@.chunks[i])
                } else {
                    old(self)@.chunks[i]
                }),
            forall|i: int|
                0 <= i < old(self)@.chunks.len() && active_has_index(final(self)@, i) ==> !(
                #[trigger] final(self)@.chunks[i]).dirty && final(self)@.chunks[i].should_simulate
                    == has_liquid(final(self)@.chunks[i].cells),
    {
        let center = crate::coords::world_to_chunk(focal);
        let cols = chunk_count_width(self.width);
        let rows = chunk_count_height(self.height);

        let min_x = if center.x > ACTIVE_CHUNK_RANGE {
            center.x - ACTIVE_CHUNK_RANGE
        } else {
            0
        };
        let max_x = if center.x + ACTIVE_CHUNK_RANGE < cols - 1 {
            center.x + ACTIVE_CHUNK_RANGE
        } else {
            cols - 1
        };
        let min_y = if center.y > ACTIVE_CHUNK_RANGE {
            center.y - ACTIVE_CHUNK_RANGE
        } else {
            0
        };
        let max_y = if center.y + ACTIVE_CHUNK_RANGE < rows - 1 {
            center.y + ACTIVE_CHUNK_RANGE
        } else {
            rows - 1
        };

        let mut fresh: Vec<GridPos> = Vec::new();
        if min_x > max_x || min_y > max_y {
            self.active_chunks = fresh;
            self.update_dirty_chunks();
            return ;
        }
        let mut x = min_x;
        while x <= max_x
            invariant
                self@ == old(self)@,
                self@.wf(),
                min_x <= x <= max_x + 1,
                min_y <= max_y,
                max_x < cols,
                cols == spec_chunk_count(old(self)@.width as int),
                rows == spec_chunk_count(old(self)@.height as int),
                1 <= old(self)@.width <= WORLD_DIM_LIMIT,
                1 <= old(self)@.height <= WORLD_DIM_LIMIT,
                min_x == (if center.x > ACTIVE_CHUNK_RANGE {
                    center.x - ACTIVE_CHUNK_RANGE
                } else {
                    0
                }),
                max_x == (if center.x + ACTIVE_CHUNK_RANGE < cols - 1 {
                    center.x + ACTIVE_CHUNK_RANGE
                } else {
                    cols - 1
                }),
                min_y == (if center.y > ACTIVE_CHUNK_RANGE {
                    center.y - ACTIVE_CHUNK_RANGE
                } else {
                    0
                }),
                max_y == (if center.y + ACTIVE_CHUNK_RANGE < rows - 1 {
                    center.y + ACTIVE_CHUNK_RANGE
                } else {
                    rows - 1
                }),
                max_y < rows,
                center.x == focal.x / 32,
                center.y == focal.y / 32,
                forall|c: GridPos|
                    fresh@.contains(c) <==> (min_x <= c.x < x && min_y <= c.y <= max_y),
                forall|k1: int, k2: int|
                    0 <= k1 < k2 < fresh@.len() ==> (#[trigger] fresh@[k1])
                        != (#[trigger] fresh@[k2]),
            decreases max_x + 1 - x,
        {
            let mut y = min_y;
            while y <= max_y
                invariant
                    min_y <= y <= max_y + 1,
                    min_x <= x <= max_x,
                    max_y < rows,
                    rows == spec_chunk_count(old(self)@.height as int),
                    1 <= old(self)@.height <= WORLD_DIM_LIMIT,
                    forall|c: GridPos|
                        fresh@.contains(c) <==> ((min_x <= c.x < x && min_y <= c.y <= max_y) || (
                        c.x == x && min_y <= c.y < y)),
                    forall|k1: int, k2: int|
                        0 <= k1 < k2 < fresh@.len() ==> (#[trigger] fresh@[k1]) != (
                        #[trigger] fresh@[k2]),
                decreases max_y + 1 - y,
            {
                let ghost prev = fresh@;
                fresh.push(GridPos { x, y });
                proof {
                    assert forall|c: GridPos| fresh@.contains(c) <==> ((min_x <= c.x < x && min_y
                        <= c.y <= max_y) || (c.x == x && min_y <= c.y < y + 1)) by {
                        if fresh@.contains(c) {
                            let j = choose|j: int| 0 <= j < fresh@.len() && fresh@[j] == c;
                            if j < prev.len() {
                                assert(prev.contains(c));
                            }
                        }
                        if (min_x <= c.x < x && min_y <= c.y <= max_y) || (c.x == x && min_y <= c.y
                            < y) {
                            assert(prev.contains(c));
                            let j = choose|j: int| 0 <= j < prev.len() && prev[j] == c;
                            assert(fresh@[j] == c);
                        }
                        if c == (GridPos { x, y }) {
                            assert(fresh@[fresh@.len() - 1] == c);
                        }
                    }
                    assert(!prev.contains(GridPos { x, y }));
                    assert forall|k1: int, k2: int| 0 <= k1 < k2 < fresh@.len() implies (
                    #[trigger] fresh@[k1]) != (#[trigger] fresh@[k2]) by {
                        if k2 == fresh@.len() - 1 {
                            assert(fresh@[k1] == prev[k1]);
                            assert(prev.contains(prev[k1]));
                        } else {
                            assert(fresh@[k1] == prev[k1] && fresh@[k2] == prev[k2]);
                        }
                    }
                }
                y += 1;
            }
            x += 1;
        }
        proof {
            assert forall|k: int| 0 <= k < fresh@.len() implies (#[trigger] fresh@[k]).x < cols
                && fresh@[k].y < rows by {
                assert(fresh@.contains(fresh@[k]));
            }
        }
        self.active_chunks = fresh;
        self.update_dirty_chunks();
    }

    /// The chunk coordinates within `range` world units of `position`,
    /// measured centre to centre in chunk units and clipped to the grid.
    pub fn get_chunks_near(&self, position: GridPos, range: u32) -> (r: Vec<GridPos>)
        requires
            self@.wf(),
            range <= WORLD_DIM_LIMIT,
        ensures
            forall|c: GridPos|
                r@.contains(c) <==> {
                    let cx = position.x as int / 32;
                    let cy = position.y as int / 32;
                    let cr = spec_chunk_count(range as int);
                    &&& c.x < self@.cols()
                    &&& c.y < self@.rows()
                    &&& cx - cr <= c.x <= cx + cr
                    &&& cy - cr <= c.y <= cy + cr
                    &&& (c.x - cx) * (c.x - cx) + (c.y - cy) * (c.y - cy) <= cr * cr
                },
            forall|k1: int, k2: int|
                0 <= k1 < k2 < r@.len() ==> (#[trigger] r@[k1]) != (#[trigger] r@[k2]),
    {
        let center = crate::coords::world_to_chunk(position);
        let chunk_range = chunk_count_width(range);

        let cols = chunk_count_width(self.width);
        let rows = chunk_count_height(self.height);

        let min_x = if center.x > chunk_range {
            center.x - chunk_range
        } else {
            0
        };
        let max_x = center.x + chunk_range;
        let min_y = if center.y > chunk_range {
            center.y - chunk_range
        } else {
            0
        };
        let max_y = center.y + chunk_range;

        let ghost cx = center.x as int;
        let ghost cy = center.y as int;
        let ghost cr = chunk_range as int;

        let mut nearby: Vec<GridPos> = Vec::new();
        let mut x = min_x;
        while x <= max_x
            invariant
                min_x <= x <= max_x + 1,
                cols == spec_chunk_count(self@.width as int),
                rows == spec_chunk_count(self@.height as int),
                cr == spec_chunk_count(range as int),
                0 <= cr <= 0x8001,
                cx == position.x as int / 32,
                cy == position.y as int / 32,
                center.x as int == cx && center.y as int == cy && chunk_range as int == cr,
                0 <= cx <= 0x0800_0000,
                0 <= cy <= 0x0800_0000,
                min_x == (if cx > cr {
                    cx - cr
                } else {
                    0
                }),
                max_x == cx + cr,
                min_y == (if cy > cr {
                    cy - cr
                } else {
                    0
                }),
                max_y == cy + cr,
                forall|j: int|
                    0 <= j < nearby@.len() ==> {
                        &&& (#[trigger] nearby@[j]).x < cols
                        &&& nearby@[j].y < rows
                        &&& cx - cr <= nearby@[j].x <= cx + cr
                        &&& cy - cr <= nearby@[j].y <= cy + cr
                        &&& (nearby@[j].x - cx) * (nearby@[j].x - cx) + (nearby@[j].y - cy) * (
                        nearby@[j].y - cy) <= cr * cr
                    },
                forall|c: GridPos|
                    ((min_x <= c.x < x && min_y <= c.y <= max_y) && c.x < cols && c.y < rows && (
                    c.x - cx) * (c.x - cx) + (c.y - cy) * (c.y - cy) <= cr * cr)
                        ==> #[trigger] nearby@.contains(c),
                forall|j: int| 0 <= j < nearby@.len() ==> (#[trigger] nearby@[j]).x < x,
                forall|k1: int, k2: int|
                    0 <= k1 < k2 < nearby@.len() ==> (#[trigger] nearby@[k1]) != (
                    #[trigger] nearby@[k2]),
            decreases max_x + 1 - x,
        {
            let mut y = min_y;
            while y <= max_y
                invariant
                    min_y <= y <= max_y + 1,
                    min_x <= x <= max_x,
                    cols == spec_chunk_count(self@.width as int),
                    rows == spec_chunk_count(self@.height as int),
                    0 <= cr <= 0x8001,
                    0 <= cx <= 0x0800_0000,
                    0 <= cy <= 0x0800_0000,
                    center.x as int == cx && center.y as int == cy && chunk_range as int == cr,
                    min_x == (if cx > cr {
                        cx - cr
                    } else {
                        0
                    }),
                    max_x == cx + cr,
                    min_y == (if cy > cr {
                        cy - cr
                    } else {
                        0
                    }),
                    max_y == cy + cr,
                    forall|j: int|
                        0 <= j < nearby@.len() ==> {
                            &&& (#[trigger] nearby@[j]).x < cols
                            &&& nearby@[j].y < rows
                            &&& cx - cr <= nearby@[j].x <= cx + cr
                            &&& cy - cr <= nearby@[j].y <= cy + cr
                            &&& (nearby@[j].x - cx) * (nearby@[j].x - cx) + (nearby@[j].y - cy) * (
                            nearby@[j].y - cy) <= cr * cr
                        },
                    forall|c: GridPos|
                        (((min_x <= c.x < x && min_y <= c.y <= max_y) || (c.x == x && min_y <= c.y
                            < y)) && c.x < cols && c.y < rows && (c.x - cx) * (c.x - cx) + (c.y
                            - cy) * (c.y - cy) <= cr * cr) ==> #[trigger] nearby@.contains(c),
                    forall|j: int|
                        0 <= j < nearby@.len() ==> (#[trigger] nearby@[j]).x < x || (nearby@[j].x
                            == x && nearby@[j].y < y),
                    forall|k1: int, k2: int|
                        0 <= k1 < k2 < nearby@.len() ==> (#[trigger] nearby@[k1]) != (
                        #[trigger] nearby@[k2]),
                decreases max_y + 1 - y,
            {
                let ghost prev0 = nearby@;
                if x < cols && y < rows {
                    let dxs = x as i64 - center.x as i64;
                    let dys = y as i64 - center.y as i64;
                    proof {
                        assert(-0x1000_0000 <= dxs <= 0x1000_0000 && -0x1000_0000 <= dys
                            <= 0x1000_0000);
                        assert(0 <= dxs * dxs <= 0x0100_0000_0000_0000i64 && 0 <= dys * dys
                            <= 0x0100_0000_0000_0000i64) by (nonlinear_arith)
                            requires
                                -0x1000_0000 <= dxs <= 0x1000_0000,
                                -0x1000_0000 <= dys <= 0x1000_0000,
                        ;
                        assert(0 <= chunk_range as i64 * chunk_range as i64
                            <= 0x0200_0000_0000_0000i64) by (nonlinear_arith)
                            requires
                                0 <= chunk_range <= 0x8001,
                        ;
                    }
                    let squared_distance = dxs * dxs + dys * dys;
                    let squared_range = chunk_range as i64 * chunk_range as i64;
                    if squared_distance <= squared_range {
                        let ghost prev1 = nearby@;
                        nearby.push(GridPos { x, y });
                        proof {
                            assert(nearby@[nearby@.len() - 1] == (GridPos { x, y }));
                            assert forall|k1: int, k2: int|
                                0 <= k1 < k2 < nearby@.len() implies (#[trigger] nearby@[k1]) != (
                            #[trigger] nearby@[k2]) by {
                                if k2 == nearby@.len() - 1 {
                                    assert(nearby@[k1] == prev1[k1]);
                                    assert(prev1[k1].x < x || (prev1[k1].x == x && prev1[k1].y
                                        < y));
                                } else {
                                    assert(nearby@[k1] == prev1[k1] && nearby@[k2] == prev1[k2]);
                                }
                            }
                            assert forall|c: GridPos|
                                (((min_x <= c.x < x && min_y <= c.y <= max_y) || (c.x == x && min_y
                                    <= c.y < y + 1)) && c.x < cols && c.y < rows && (c.x - cx) * (
                                c.x - cx) + (c.y - cy) * (c.y - cy) <= cr * cr) implies
                                nearby@.contains(c) by {
                                if c.x == x && c.y == y {
                                    assert(nearby@.contains(GridPos { x, y }));
                                } else {
                                    assert(prev0.contains(c));
                                    let j = choose|j: int| 0 <= j < prev0.len() && prev0[j] == c;
                                    assert(nearby@[j] == c);
                                }
                            }
                        }
                    } else {
                        proof {
                            assert forall|c: GridPos|
                                (((min_x <= c.x < x && min_y <= c.y <= max_y) || (c.x == x && min_y
                                    <= c.y < y + 1)) && c.x < cols && c.y < rows && (c.x - cx) * (
                                c.x - cx) + (c.y - cy) * (c.y - cy) <= cr * cr) implies
                                nearby@.contains(c) by {
                                if c.x == x && c.y == y {
                                    assert((c.x - cx) * (c.x - cx) + (c.y - cy) * (c.y - cy)
                                        == squared_distance as int);
                                    assert(false);
                                } else {
                                    assert(prev0.contains(c));
                                }
                            }
                        }
                    }
                } else {
                    proof {
                        assert forall|c: GridPos|
                            (((min_x <= c.x < x && min_y <= c.y <= max_y) || (c.x == x && min_y
                                <= c.y < y + 1)) && c.x < cols && c.y < rows && (c.x - cx) * (c.x
                                - cx) + (c.y - cy) * (c.y - cy) <= cr * cr) implies
                            nearby@.contains(c) by {
                            if c.x == x && c.y == y {
                                assert(false);
                            } else {
                                assert(prev0.contains(c));
                            }
                        }
                    }
                }
                y += 1;
            }
            x += 1;
        }
        proof {
            assert forall|c: GridPos| nearby@.contains(c) implies {
                &&& c.x < self@.cols()
                &&& c.y < self@.rows()
                &&& cx - cr <= c.x <= cx + cr
                &&& cy - cr <= c.y <= cy + cr
                &&& (c.x - cx) * (c.x - cx) + (c.y - cy) * (c.y - cy) <= cr * cr
            } by {
                let j = choose|j: int| 0 <= j < nearby@.len() && nearby@[j] == c;
            }
        }
        nearby
    }
}



/// Every chunk stored in a well-formed map agrees with the map's own cell
/// lookup at each of the chunk's in-map cells.
pub proof fn lemma_map_chunk_agrees(m: WorldMapView, cx: int, cy: int)
    requires
        m.wf(),
        0 <= cx < m.cols(),
        0 <= cy < m.rows(),
    ensures
        chunk_agrees_with_map(m, m.chunk_at(cx, cy)),
        m.chunk_at(cx, cy).position == (GridPos { x: cx as u32, y: cy as u32 }),
        m.chunk_at(cx, cy).wf(),
{
    let ch = m.chunk_at(cx, cy);
    lemma_flat_index_bound(cx, cy, m.cols(), m.rows());
    lemma_flat_index_unique(ch.position.x as int, ch.position.y as int, cx, cy, m.rows());
    assert forall|x: u32, y: u32|
        x < 32 && y < 32 && m.valid_pos(#[trigger] crate::fluid::world_cell(ch, x, y)) implies
        m.get(crate::fluid::world_cell(ch, x, y)) == ch.cells[x as int * 32 + y as int] by {
        let w = crate::fluid::world_cell(ch, x, y);
        assert(w.x as int == cx * 32 + x);
        assert(w.y as int == cy * 32 + y);
        assert(w.x as int / 32 == cx && w.x as int % 32 == x as int);
        assert(w.y as int / 32 == cy && w.y as int % 32 == y as int);
    }
}

/// The apply phase never loses a particle: with every target still free
/// once sources are cleared, each queued move's particle sits at its own
/// target afterwards, a source cell that is nobody's target is empty, and
/// every cell that is neither a source nor a target of any queued move is
/// untouched. No cell ever holds more than one particle, since a cell
/// holds at most one occupant by construction.
pub proof fn lemma_apply_conserves_particles(v: WorldMapView, q: Seq<ParticleMove>)
    requires
        queue_wf(q),
        forall|k: int|
            0 <= k < q.len() ==> cleared_get(v, q, (#[trigger] q[k]).target_pos) is None,
    ensures
        forall|k: int|
            0 <= k < q.len() ==> apply_point(v, q, (#[trigger] q[k]).target_pos) == Some(
                q[k].particle,
            ),
        forall|pos: GridPos|
            queue_has_source(q, pos) && !queue_has_target(q, pos) ==> apply_point(v, q, pos)
                is None,
        forall|pos: GridPos|
            !queue_has_source(q, pos) && !queue_has_target(q, pos) ==> apply_point(v, q, pos)
                == v.get(pos),
{
    assert forall|k: int| 0 <= k < q.len() implies apply_point(v, q, (#[trigger] q[k]).target_pos)
        == Some(q[k].particle) by {
        let pos = q[k].target_pos;
        assert(queue_has_target(q, pos));
        let k2 = choose|k2: int| 0 <= k2 < q.len() && (#[trigger] q[k2]).target_pos == pos;
        crate::queue::lemma_queue_target_unique(q, k, k2);
    }
}

impl WorldMap {
    /// Applies the queued cross-chunk moves: first every move's source
    /// cell is cleared, then each particle is placed at its target only
    /// if that cell is still unoccupied, in target row-then-column order.
    fn apply_particle_moves(&mut self, queue: &MoveQueue)
        requires
            old(self)@.wf(),
            queue_wf(queue@),
            forall|e: ParticleMove|
                #[trigger] queue@.contains(e) ==> old(self)@.valid_pos(e.target_pos),
        ensures
            final(self)@.wf(),
            final(self)@.width == old(self)@.width,
            final(self)@.height == old(self)@.height,
            final(self)@.active_chunks == old(self)@.active_chunks,
            forall|pos: GridPos|
                #[trigger] final(self)@.get(pos) == apply_point(old(self)@, queue@, pos),
    {
        let ghost q = queue@;
        let n = queue.moves.len();

        // First, remove particles from source positions.
        let mut i: usize = 0;
        while i < n
            invariant
                i <= n,
                n == q.len(),
                queue@ == q,
                queue_wf(q),
                self@.wf(),
                self@.width == old(self)@.width,
                self@.height == old(self)@.height,
                self@.active_chunks == old(self)@.active_chunks,
                forall|pos: GridPos|
                    #[trigger] self@.get(pos) == (if exists|j: int|
                        0 <= j < i && (#[trigger] q[j]).source_pos == pos {
                        None
                    } else {
                        old(self)@.get(pos)
                    }),
            decreases n - i,
        {
            let m = queue.moves[i];
            let ghost prev = self@;
            self.set_particle_at(m.source_pos, None);
            proof {
                assert forall|pos: GridPos| #[trigger] self@.get(pos) == (if exists|j: int|
                    0 <= j < i + 1 && (#[trigger] q[j]).source_pos == pos {
                    None
                } else {
                    old(self)@.get(pos)
                }) by {
                    if prev.valid_pos(m.source_pos) {
                        lemma_map_set_get(prev, m.source_pos, None, self@, pos);
                    } else {
                        assert(self@ == prev);
                    }
                    if pos == m.source_pos {
                        assert(q[i as int].source_pos == pos);
                        if !prev.valid_pos(pos) {
                            assert(self@.get(pos) is None);
                        }
                    }
                }
            }
            i += 1;
        }

        // Then, place each particle at its target if still unoccupied.
        let mut i: usize = 0;
        while i < n
            invariant
                i <= n,
                n == q.len(),
                queue@ == q,
                queue_wf(q),
                self@.wf(),
                self@.width == old(self)@.width,
                self@.height == old(self)@.height,
                self@.active_chunks == old(self)@.active_chunks,
                forall|e: ParticleMove| #[trigger] q.contains(e) ==> old(self)@.valid_pos(
                    e.target_pos,
                ),
                forall|pos: GridPos|
                    #[trigger] self@.get(pos) == (if exists|j: int|
                        0 <= j < i && (#[trigger] q[j]).target_pos == pos {
                        apply_point(old(self)@, q, pos)
                    } else {
                        cleared_get(old(self)@, q, pos)
                    }),
            decreases n - i,
        {
            let m = queue.moves[i];
            let ghost prev = self@;
            proof {
                assert(q.contains(q[i as int]));
                assert(old(self)@.valid_pos(m.target_pos));
                assert forall|j: int| 0 <= j < i implies (#[trigger] q[j]).target_pos
                    != m.target_pos by {
                    if q[j].target_pos == m.target_pos {
                        crate::queue::lemma_queue_target_unique(q, j, i as int);
                    }
                }
                assert(self@.get(m.target_pos) == cleared_get(old(self)@, q, m.target_pos));
            }
            if self.get_particle_at(m.target_pos).is_none() {
                self.set_particle_at(m.target_pos, Some(m.particle));
            }
            proof {
                assert(queue_has_target(q, m.target_pos)) by {
                    assert(q[i as int].target_pos == m.target_pos);
                }
                let kc = choose|k: int|
                    0 <= k < q.len() && (#[trigger] q[k]).target_pos == m.target_pos;
                crate::queue::lemma_queue_target_unique(q, kc, i as int);
                assert forall|pos: GridPos| #[trigger] self@.get(pos) == (if exists|j: int|
                    0 <= j < i + 1 && (#[trigger] q[j]).target_pos == pos {
                    apply_point(old(self)@, q, pos)
                } else {
                    cleared_get(old(self)@, q, pos)
                }) by {
                    if prev.get(m.target_pos) is None {
                        lemma_map_set_get(
                            prev,
                            m.target_pos,
                            Some(m.particle),
                            self@,
                            pos,
                        );
                    } else {
                        assert(self@ == prev);
                    }
                    if pos == m.target_pos {
                        assert(q[i as int].target_pos == pos);
                        assert(self@.get(pos) == apply_point(old(self)@, q, pos));
                    }
                }
            }
            i += 1;
        }
        proof {
            assert forall|pos: GridPos| #[trigger] self@.get(pos) == apply_point(
                old(self)@,
                q,
                pos,
            ) by {
                if exists|j: int| 0 <= j < n && (#[trigger] q[j]).target_pos == pos {
                    assert(queue_has_target(q, pos));
                } else {
                    assert(!queue_has_target(q, pos));
                }
            }
        }
    }

    /// Advances one simulation tick over the active chunks: every active
    /// chunk that needs simulation is stepped against the prior map state,
    /// the results are committed at their positions, and the queued
    /// cross-chunk moves are applied in a fixed order. The final map is
    /// exactly the apply phase run on some committed mid-tick state whose
    /// chunks each satisfy the chunk-tick relation.
    pub fn simulate_active_chunks(&mut self, table: &InteractionTable)
        requires
            old(self)@.wf(),
        ensures
            final(self)@.wf(),
            final(self)@.width == old(self)@.width,
            final(self)@.height == old(self)@.height,
            final(self)@.active_chunks == old(self)@.active_chunks,
            exists|mid: WorldMapView, q: Seq<ParticleMove>|
                {
                    &&& #[trigger] tick_phase_ok(old(self)@, table@, mid, q)
                    &&& queue_wf(q)
                    &&& forall|pos: GridPos|
                        #[trigger] final(self)@.get(pos) == apply_point(mid, q, pos)
                },
    {
        let actives = self.copy_active_chunks();
        let mut queue = MoveQueue::new();
        let mut updated: Vec<Chunk> = Vec::new();

        let ghost mut chs: Seq<ChunkView> = Seq::empty();
        let ghost mut qs2: Seq<Seq<ParticleMove>> = seq![queue@];

        let n = actives.len();
        let mut i: usize = 0;
        while i < n
            invariant
                i <= n,
                self@ == old(self)@,
                self@.wf(),
                n == actives@.len(),
                n == self@.active_chunks.len(),
                forall|k: int|
                    0 <= k < n ==> (#[trigger] actives@[k])@ == self@.chunk_at(
                        self@.active_chunks[k].x as int,
                        self@.active_chunks[k].y as int,
                    ),
                queue_wf(queue@),
                forall|e: ParticleMove|
                    #[trigger] queue@.contains(e) ==> self@.valid_pos(e.target_pos),
                chs.len() == i,
                qs2.len() == i + 1,
                qs2[0] == Seq::<ParticleMove>::empty(),
                qs2[i as int] == queue@,
                updated@.len() == i,
                forall|k: int|
                    0 <= k < i ==> {
                        &&& (#[trigger] updated@[k])@ == chs[k]
                        &&& chs[k].wf()
                        &&& chs[k].position == self@.active_chunks[k]
                    },
                forall|k: int|
                    0 <= k < i ==> #[trigger] chunk_sim_ok(
                        self@,
                        table@,
                        self@.chunks[active_flat(self@, k)],
                        chs[k],
                        qs2[k],
                        qs2[k + 1],
                    ),
            decreases n - i,
        {
            let mut chunk = actives[i].clone();
            proof {
                lemma_map_chunk_agrees(
                    self@,
                    self@.active_chunks[i as int].x as int,
                    self@.active_chunks[i as int].y as int,
                );
                assert(self@.chunk_at(
                    self@.active_chunks[i as int].x as int,
                    self@.active_chunks[i as int].y as int,
                ) == self@.chunks[active_flat(self@, i as int)]);
            }
            let ghost ch0 = chunk@;
            if chunk.should_simulate {
                let upd = chunk.simulate(self, table, &mut queue);
                let ghost u = upd@;
                updated.push(upd);
                proof {
                    chs = chs.push(u);
                    qs2 = qs2.push(queue@);
                    assert(chunk_sim_ok(self@, table@, ch0, u, qs2[i as int], queue@));
                }
            } else {
                let ghost u = chunk@;
                updated.push(chunk);
                proof {
                    chs = chs.push(u);
                    qs2 = qs2.push(queue@);
                    assert(chunk_sim_ok(self@, table@, ch0, u, qs2[i as int], queue@));
                }
            }
            i += 1;
        }

        let m = updated.len();
        let mut i: usize = 0;
        while i < m
            invariant
                i <= m,
                self@.wf(),
                m == n,
                m == updated@.len(),
                n == old(self)@.active_chunks.len(),
                n == chs.len(),
                self@.width == old(self)@.width,
                self@.height == old(self)@.height,
                self@.active_chunks == old(self)@.active_chunks,
                self@.chunks.len() == old(self)@.chunks.len(),
                forall|k: int|
                    0 <= k < m ==> {
                        &&& (#[trigger] updated@[k])@ == chs[k]
                        &&& chs[k].wf()
                        &&& chs[k].position == old(self)@.active_chunks[k]
                    },
                forall|k: int|
                    0 <= k < i ==> self@.chunks[#[trigger] active_flat(old(self)@, k)] == chs[k],
                forall|k: int|
                    i <= k < n ==> self@.chunks[#[trigger] active_flat(old(self)@, k)] == old(
                        self,
                    )@.chunks[active_flat(old(self)@, k)],
                forall|ii: int|
                    0 <= ii < old(self)@.chunks.len() && !active_has_index(old(self)@, ii)
                        ==> #[trigger] self@.chunks[ii] == old(self)@.chunks[ii],
                queue_wf(queue@),
                forall|e: ParticleMove|
                    #[trigger] queue@.contains(e) ==> self@.valid_pos(e.target_pos),
            decreases m - i,
        {
            let chunk = updated[i].clone();
            let position = chunk.position;
            let ghost prev = self@;
            self.set_chunk_at(position, chunk);
            proof {
                let v0 = old(self)@;
                let i0 = active_flat(v0, i as int);
                lemma_flat_index_bound(
                    v0.active_chunks[i as int].x as int,
                    v0.active_chunks[i as int].y as int,
                    v0.cols(),
                    v0.rows(),
                );
                assert(v0.cols() * v0.rows() == v0.chunks.len());
                assert(self@.chunks =~= prev.chunks.update(i0, chs[i as int]));
                assert forall|k: int| 0 <= k < i + 1 implies self@.chunks[#[trigger] active_flat(
                    v0,
                    k,
                )] == chs[k] by {
                    lemma_flat_index_bound(
                        v0.active_chunks[k].x as int,
                        v0.active_chunks[k].y as int,
                        v0.cols(),
                        v0.rows(),
                    );
                    if k < i {
                        if active_flat(v0, k) == i0 {
                            lemma_flat_index_unique(
                                v0.active_chunks[k].x as int,
                                v0.active_chunks[k].y as int,
                                v0.active_chunks[i as int].x as int,
                                v0.active_chunks[i as int].y as int,
                                v0.rows(),
                            );
                            assert(false);
                        }
                    }
                }
                assert forall|k: int| i + 1 <= k < n implies self@.chunks[#[trigger] active_flat(
                    v0,
                    k,
                )] == v0.chunks[active_flat(v0, k)] by {
                    lemma_flat_index_bound(
                        v0.active_chunks[k].x as int,
                        v0.active_chunks[k].y as int,
                        v0.cols(),
                        v0.rows(),
                    );
                    if active_flat(v0, k) == i0 {
                        lemma_flat_index_unique(
                            v0.active_chunks[k].x as int,
                            v0.active_chunks[k].y as int,
                            v0.active_chunks[i as int].x as int,
                            v0.active_chunks[i as int].y as int,
                            v0.rows(),
                        );
                        assert(false);
                    }
                }
                assert forall|ii: int|
                    0 <= ii < v0.chunks.len() && !active_has_index(v0, ii) implies
                    #[trigger] self@.chunks[ii] == v0.chunks[ii] by {
                    if ii == i0 {
                        assert(v0.active_chunks[i as int].x * v0.rows() + v0.active_chunks[
                        i as int].y == ii);
                        assert(false);
                    }
                }
            }
            i += 1;
        }

        let ghost mid = self@;
        let ghost qfinal = queue@;
        proof {
            assert(committed_ok(old(self)@, mid, chs));
        }

        self.apply_particle_moves(&queue);

        proof {
            assert(tick_phase_ok(old(self)@, table@, mid, qfinal)) by {
                assert(committed_ok(old(self)@, mid, chs));
                assert(qs2.len() == old(self)@.active_chunks.len() + 1);
                assert(qs2[old(self)@.active_chunks.len() as int] == qfinal);
            }
        }
    }

    /// Runs one interaction pass over every active chunk.
    pub fn process_interactions(&mut self, table: &InteractionTable)
        requires
            old(self)@.wf(),
        ensures
            final(self)@.wf(),
            final(self)@.width == old(self)@.width,
            final(self)@.height == old(self)@.height,
            final(self)@.active_chunks == old(self)@.active_chunks,
            forall|i: int|
                0 <= i < old(self)@.chunks.len() && !active_has_index(old(self)@, i)
                    ==> final(self)@.chunks[i] == old(self)@.chunks[i],
            forall|i: int, x: int, y: int|
                0 <= i < old(self)@.chunks.len() && active_has_index(old(self)@, i) && 0 <= x < 32
                    && 0 <= y < 32 ==> final(self)@.chunks[i].cells[x * 32 + y]
                    == #[trigger] crate::chunk::interacted_cell(
                    old(self)@.chunks[i].cells,
                    table@,
                    x,
                    y,
                ),
    {
        let n = self.active_chunks.len();
        let mut k: usize = 0;
        while k < n
            invariant
                k <= n,
                self@.wf(),
                n == old(self)@.active_chunks.len(),
                self@.width == old(self)@.width,
                self@.height == old(self)@.height,
                self@.active_chunks == old(self)@.active_chunks,
                self@.chunks.len() == old(self)@.chunks.len(),
                forall|i: int|
                    0 <= i < old(self)@.chunks.len() && !(exists|j: int|
                        0 <= j < k && (#[trigger] old(self)@.active_chunks[j]).x * old(
                            self,
                        )@.rows() + old(self)@.active_chunks[j].y == i)
                        ==> #[trigger] self@.chunks[i] == old(self)@.chunks[i],
                forall|i: int, x: int, y: int|
                    0 <= i < old(self)@.chunks.len() && (exists|j: int|
                        0 <= j < k && (#[trigger] old(self)@.active_chunks[j]).x * old(
                            self,
                        )@.rows() + old(self)@.active_chunks[j].y == i) && 0 <= x < 32 && 0 <= y
                        < 32 ==> self@.chunks[i].cells[x * 32 + y]
                        == #[trigger] crate::chunk::interacted_cell(
                        old(self)@.chunks[i].cells,
                        table@,
                        x,
                        y,
                    ),
            decreases n - k,
        {
            let pos = self.active_chunks[k];
            let ghost prev = self@;
            let rows = chunk_count_height(self.height) as usize;
            let nn = self.chunks.len();
            proof {
                lemma_flat_index_bound(pos.x as int, pos.y as int, self@.cols(), self@.rows());
                assert(self@.cols() * self@.rows() == self@.chunks.len());
                assert(self@.chunks.len() == nn);
                assert(self@.chunks[pos.x as int * self@.rows() + pos.y as int].wf());
            }
            let idx = pos.x as usize * rows + pos.y as usize;
            let chunk = &mut self.chunks[idx];
            let _ = chunk.process_interactions(table);
            proof {
                let i0 = pos.x as int * old(self)@.rows() + pos.y as int;
                assert(self@.chunks =~= prev.chunks.update(i0, self@.chunks[i0]));
                assert(prev.chunks[i0] == old(self)@.chunks[i0]) by {
                    if exists|j: int|
                        0 <= j < k && (#[trigger] old(self)@.active_chunks[j]).x * old(
                            self,
                        )@.rows() + old(self)@.active_chunks[j].y == i0 {
                        let j = choose|j: int|
                            0 <= j < k && (#[trigger] old(self)@.active_chunks[j]).x * old(
                                self,
                            )@.rows() + old(self)@.active_chunks[j].y == i0;
                        lemma_flat_index_unique(
                            old(self)@.active_chunks[j].x as int,
                            old(self)@.active_chunks[j].y as int,
                            pos.x as int,
                            pos.y as int,
                            old(self)@.rows(),
                        );
                        assert(old(self)@.active_chunks[j] == old(self)@.active_chunks[k as int]);
                        assert(false);
                    }
                }
            }
            k += 1;
        }
    }
}



/// Whether depth `d` lies in the spawn interval of special `s`.
pub open spec fn special_eligible(s: Special, d: u32) -> bool {
    s.min_depth_spec() <= d < s.max_depth_spec()
}

/// The specials eligible at depth `d`, in ascending spawn-weight order,
/// the order the cumulative-bucket selection walks.
pub open spec fn eligible_specials(d: u32) -> Seq<Special> {
    if special_eligible(Special::Gem(Gem::Ruby), d) && special_eligible(
        Special::Ore(Ore::Gold),
        d,
    ) {
        seq![Special::Gem(Gem::Ruby), Special::Ore(Ore::Gold)]
    } else if special_eligible(Special::Ore(Ore::Gold), d) {
        seq![Special::Ore(Ore::Gold)]
    } else if special_eligible(Special::Gem(Gem::Ruby), d) {
        seq![Special::Gem(Gem::Ruby)]
    } else {
        Seq::empty()
    }
}

/// The total spawn weight of a sequence of specials.
pub open spec fn weight_sum(entries: Seq<Special>) -> int
    decreases entries.len(),
{
    if entries.len() == 0 {
        0
    } else {
        entries[0].spawn_chance_spec() + weight_sum(entries.skip(1))
    }
}

/// Cumulative-bucket selection: the special whose weight bucket holds the
/// rolled value, walking the entries in order.
pub open spec fn bucket_pick(entries: Seq<Special>, roll: int) -> Option<Special>
    decreases entries.len(),
{
    if entries.len() == 0 {
        None
    } else if roll < entries[0].spawn_chance_spec() {
        Some(entries[0])
    } else {
        bucket_pick(entries.skip(1), roll - entries[0].spawn_chance_spec())
    }
}

/// What the two-stage weighted roll decides at depth `d` for the given
/// two uniform draws: nothing when the first draw clears the total weight,
/// else the special whose bucket the second draw hits.
pub open spec fn select_spec(d: u32, roll1: int, roll2: int) -> Option<Particle> {
    if weight_sum(eligible_specials(d)) == 0 {
        None
    } else if roll1 >= weight_sum(eligible_specials(d)) {
        None
    } else {
        match bucket_pick(eligible_specials(d), roll2) {
            Some(s) => Some(Particle::Special(s)),
            None => None,
        }
    }
}

/// Every special's spawn weight lies on the 0 to 1000 scale.
pub proof fn lemma_special_chance_bounds(s: Special)
    ensures
        0 <= s.spawn_chance_spec() <= 1000,
{
    match s {
        Special::Ore(o) => {
            match o {
                Ore::Gold => {},
            }
        },
        Special::Gem(g) => {
            match g {
                Gem::Ruby => {},
            }
        },
    }
}

/// A bucket pick returns one of the walked entries.
pub proof fn lemma_bucket_pick_member(entries: Seq<Special>, roll: int)
    ensures
        match bucket_pick(entries, roll) {
            Some(s) => entries.contains(s),
            None => true,
        },
    decreases entries.len(),
{
    if entries.len() > 0 {
        if roll < entries[0].spawn_chance_spec() {
            assert(entries[0] == entries[0]);
        } else {
            lemma_bucket_pick_member(entries.skip(1), roll - entries[0].spawn_chance_spec());
            match bucket_pick(entries.skip(1), roll - entries[0].spawn_chance_spec()) {
                Some(s) => {
                    let j = choose|j: int|
                        0 <= j < entries.skip(1).len() && entries.skip(1)[j] == s;
                    assert(entries[j + 1] == s);
                },
                None => {},
            }
        }
    }
}

/// Every member of the eligible list is in fact eligible at that depth.
pub proof fn lemma_eligible_members(d: u32)
    ensures
        forall|s: Special| eligible_specials(d).contains(s) ==> special_eligible(s, d),
{
    assert forall|s: Special| eligible_specials(d).contains(s) implies special_eligible(
        s,
        d,
    ) by {
        let e = eligible_specials(d);
        let j = choose|j: int| 0 <= j < e.len() && e[j] == s;
    }
}

impl WorldMap {
    /// The specials eligible at the given depth, ascending by weight.
    fn eligible_specials_at(depth: u32) -> (r: Vec<Special>)
        ensures
            r@ == eligible_specials(depth),
    {
        let ruby = Special::Gem(Gem::Ruby);
        let gold = Special::Ore(Ore::Gold);
        let mut v: Vec<Special> = Vec::new();
        if depth >= ruby.min_depth() && depth < ruby.max_depth() {
            v.push(ruby);
        }
        if depth >= gold.min_depth() && depth < gold.max_depth() {
            v.push(gold);
        }
        proof {
            assert(v@ =~= eligible_specials(depth));
        }
        v
    }

    /// The total spawn weight of the given specials.
    fn total_weight_of(entries: &Vec<Special>) -> (r: i64)
        requires
            entries@.len() <= 1000,
        ensures
            r == weight_sum(entries@),
            0 <= r <= 1000 * entries@.len(),
    {
        let n = entries.len();
        let mut acc: i64 = 0;
        let mut i: usize = 0;
        proof {
            assert(entries@.skip(0) =~= entries@);
        }
        while i < n
            invariant
                i <= n,
                n == entries@.len(),
                n <= 1000,
                acc + weight_sum(entries@.skip(i as int)) == weight_sum(entries@),
                0 <= acc <= 1000 * i,
            decreases n - i,
        {
            let s = entries[i];
            proof {
                lemma_special_chance_bounds(s);
                assert(entries@.skip(i as int)[0] == entries@[i as int]);
                assert(entries@.skip(i as int).skip(1) =~= entries@.skip(i as int + 1));
            }
            acc = acc + s.spawn_chance() as i64;
            i += 1;
        }
        acc
    }

    /// The deterministic core of the weighted roll: given the depth and
    /// the two uniform draws, returns exactly what the two-stage selection
    /// decides.
    pub fn select_special(depth: u32, roll1: u32, roll2: u32) -> (r: Option<Particle>)
        ensures
            r == select_spec(depth, roll1 as int, roll2 as int),
    {
        let eligible = WorldMap::eligible_specials_at(depth);
        let total = WorldMap::total_weight_of(&eligible);
        if total == 0 {
            return None;
        }
        if roll1 as i64 >= total {
            return None;
        }
        let n = eligible.len();
        let mut rem: i64 = roll2 as i64;
        let mut i: usize = 0;
        proof {
            assert(eligible@.skip(0) =~= eligible@);
        }
        while i < n
            invariant
                i <= n,
                n == eligible@.len(),
                0 <= rem <= roll2,
                eligible@ == eligible_specials(depth),
                total == weight_sum(eligible@),
                total != 0,
                (roll1 as i64) < total,
                bucket_pick(eligible@, roll2 as int) == bucket_pick(
                    eligible@.skip(i as int),
                    rem as int,
                ),
            decreases n - i,
        {
            let s = eligible[i];
            proof {
                lemma_special_chance_bounds(s);
                assert(eligible@.skip(i as int)[0] == eligible@[i as int]);
                assert(eligible@.skip(i as int).skip(1) =~= eligible@.skip(i as int + 1));
            }
            let chance = s.spawn_chance() as i64;
            if rem < chance {
                return Some(Particle::Special(s));
            }
            rem = rem - chance;
            i += 1;
        }
        None
    }

    /// Uses a two-stage weighted roll to decide whether a special
    /// particle spawns at this depth and, if so, which one. Whatever the
    /// draws, the outcome is nothing or a special eligible at that depth.
    pub fn roll_special_particle(depth: u32) -> (r: Option<Particle>)
        ensures
            match r {
                Some(p) => match p {
                    Particle::Special(s) => special_eligible(s, depth),
                    _ => false,
                },
                None => true,
            },
            eligible_specials(depth).len() == 0 ==> r is None,
    {
        let eligible = WorldMap::eligible_specials_at(depth);
        if eligible.len() == 0 {
            return None;
        }
        let total = WorldMap::total_weight_of(&eligible);
        let roll1 = crate::rng::rand_range_u32(0, 1000);
        if roll1 as i64 >= total {
            return None;
        }
        let roll2 = crate::rng::rand_range_u32(0, total as u32);
        let r = WorldMap::select_special(depth, roll1, roll2);
        proof {
            lemma_bucket_pick_member(eligible_specials(depth), roll2 as int);
            lemma_eligible_members(depth);
        }
        r
    }
}


} // verus!
