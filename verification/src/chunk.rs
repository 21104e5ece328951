//! Chunks: fixed-size square tiles of the world grid, the unit of
//! simulation and activation granularity.
use vstd::prelude::*;
use vstd::pervasive::VecAdditionalExecFns;

use crate::coords::GridPos;
use crate::fluid::{local_index, sim_effect_ok, step_ok, world_cell, FluidSimulator,
    SimulationContext, StepEnv};
use crate::interaction::{kind_eq, lookup_spec, rules_among_liquids, InteractionPair,
    InteractionRule, InteractionTable};
use crate::particle::{Particle, ParticleType};
use crate::queue::{insert_effect, queue_has_target, queue_wf, MoveQueue};
use crate::world::{WorldMap, WorldMapView};

verus! {

/// The square side of a chunk in particle units.
pub const CHUNK_SIZE: u32 = 32;

/// The number of cells of a chunk.
pub const CHUNK_AREA: usize = 1024;

/// The range (in chunks) at which chunks are considered active around the
/// focal point.
pub const ACTIVE_CHUNK_RANGE: u32 = 12;

/// The exclusive bound on chunk coordinates, so that every world
/// coordinate of a chunk's cells fits comfortably in `u32` arithmetic.
pub const CHUNK_COORD_LIMIT: u32 = 0x0200_0000;

/// A particle that needs to move to a cell outside its own chunk, queued
/// for the sequential apply phase of the tick.
#[derive(Clone, Copy, PartialEq, Eq, Hash, Debug, Structural)]
pub struct ParticleMove {
    /// Source position in world coordinates.
    pub source_pos: GridPos,
    /// Target position in world coordinates.
    pub target_pos: GridPos,
    /// The particle to move.
    pub particle: Particle,
}

/// The mathematical state of a chunk: its coordinate, its cells laid out
/// column-major (cell `(x, y)` at index `x * CHUNK_SIZE + y`), and its
/// bookkeeping flags and cached world-coordinate bounds.
pub struct ChunkView {
    pub position: GridPos,
    pub cells: Seq<Option<Particle>>,
    pub dirty: bool,
    pub should_simulate: bool,
    pub x_min: u32,
    pub x_max: u32,
    pub y_min: u32,
    pub y_max: u32,
}

impl ChunkView {
    /// Well-formedness: the grid has exactly one entry per cell, the chunk
    /// coordinate is small enough for world-coordinate arithmetic, and the
    /// cached bounds agree with the coordinate.
    pub open spec fn wf(self) -> bool {
        &&& self.cells.len() == CHUNK_AREA
        &&& self.position.x < CHUNK_COORD_LIMIT
        &&& self.position.y < CHUNK_COORD_LIMIT
        &&& self.x_min == self.position.x * CHUNK_SIZE
        &&& self.x_max == self.position.x * CHUNK_SIZE + CHUNK_SIZE
        &&& self.y_min == self.position.y * CHUNK_SIZE
        &&& self.y_max == self.position.y * CHUNK_SIZE + CHUNK_SIZE
        &&& (!self.dirty ==> self.should_simulate == has_liquid(self.cells))
    }
}

/// The cell of `c` at in-bounds local coordinates, `None` outside.
pub open spec fn chunk_get_spec(c: ChunkView, local: GridPos) -> Option<Particle> {
    if local.x < CHUNK_SIZE && local.y < CHUNK_SIZE {
        c.cells[local.x * CHUNK_SIZE + local.y]
    } else {
        None
    }
}

/// The chunk after writing `p` at `local`: in bounds the cell is replaced
/// and the chunk marked dirty, out of bounds nothing changes.
pub open spec fn chunk_set_spec(c: ChunkView, local: GridPos, p: Option<Particle>) -> ChunkView {
    if local.x < CHUNK_SIZE && local.y < CHUNK_SIZE {
        ChunkView {
            cells: c.cells.update(local.x * CHUNK_SIZE + local.y, p),
            dirty: true,
            ..c
        }
    } else {
        c
    }
}

/// Whether any cell of the grid holds a liquid.
pub open spec fn has_liquid(cells: Seq<Option<Particle>>) -> bool {
    exists|i: int| 0 <= i < cells.len() && (#[trigger] cells[i]) matches Some(Particle::Liquid(_))
}

/// Whether the world position `world` falls inside chunk `c`.
pub open spec fn within_chunk_spec(c: ChunkView, world: GridPos) -> bool {
    &&& c.x_min <= world.x < c.x_max
    &&& c.y_min <= world.y < c.y_max
}

/// A square section of the world map holding one optional particle per
/// cell, plus the flags the tick loop uses to skip settled chunks.
pub struct Chunk {
    /// Position of this chunk in chunk coordinates (not world coordinates).
    pub position: GridPos,
    /// The cells, column-major: cell `(x, y)` at index `x * CHUNK_SIZE + y`.
    pub cells: Vec<Option<Particle>>,
    /// Whether this chunk has been modified since the last refresh.
    pub dirty: bool,
    /// Whether this chunk holds particles that need active simulation.
    pub should_simulate: bool,
    /// Cached world-coordinate boundaries of this chunk.
    pub x_min: u32,
    pub x_max: u32,
    pub y_min: u32,
    pub y_max: u32,
}

impl View for Chunk {
    type V = ChunkView;

    open spec fn view(&self) -> ChunkView {
        ChunkView {
            position: self.position,
            cells: self.cells@,
            dirty: self.dirty,
            should_simulate: self.should_simulate,
            x_min: self.x_min,
            x_max: self.x_max,
            y_min: self.y_min,
            y_max: self.y_max,
        }
    }
}

impl Clone for Chunk {
    /// A clone carries exactly the same state.
    fn clone(&self) -> (r: Self)
        ensures
            r@ == self@,
    {
        let mut cells: Vec<Option<Particle>> = Vec::new();
        let mut i: usize = 0;
        while i < self.cells.len()
            invariant
                i <= self.cells@.len(),
                cells@ =~= self.cells@.subrange(0, i as int),
            decreases self.cells@.len() - i,
        {
            cells.push(self.cells[i]);
            i += 1;
        }
        proof {
            assert(cells@ =~= self.cells@);
        }
        Chunk {
            position: self.position,
            cells,
            dirty: self.dirty,
            should_simulate: self.should_simulate,
            x_min: self.x_min,
            x_max: self.x_max,
            y_min: self.y_min,
            y_max: self.y_max,
        }
    }
}

impl Chunk {
    /// Creates a new empty chunk at the given chunk coordinate.
    pub fn new(position: GridPos) -> (r: Self)
        requires
            position.x < CHUNK_COORD_LIMIT,
            position.y < CHUNK_COORD_LIMIT,
        ensures
            r@.wf(),
            r@.position == position,
            !r@.dirty,
            !r@.should_simulate,
            forall|i: int| 0 <= i < CHUNK_AREA ==> r@.cells[i] is None,
    {
        let mut cells: Vec<Option<Particle>> = Vec::new();
        let mut i: usize = 0;
        while i < CHUNK_AREA
            invariant
                i <= CHUNK_AREA,
                cells@.len() == i,
                forall|j: int| 0 <= j < i ==> cells@[j] is None,
            decreases CHUNK_AREA - i,
        {
            cells.push(None);
            i += 1;
        }
        Chunk {
            position,
            cells,
            dirty: false,
            should_simulate: false,
            x_min: position.x * CHUNK_SIZE,
            x_max: position.x * CHUNK_SIZE + CHUNK_SIZE,
            y_min: position.y * CHUNK_SIZE,
            y_max: position.y * CHUNK_SIZE + CHUNK_SIZE,
        }
    }

    /// Checks if the given local position is within chunk bounds.
    pub fn is_in_bounds(&self, local_pos: GridPos) -> (r: bool)
        ensures
            r == (local_pos.x < CHUNK_SIZE && local_pos.y < CHUNK_SIZE),
    {
        local_pos.x < CHUNK_SIZE && local_pos.y < CHUNK_SIZE
    }

    /// Checks if the given world position is within this chunk.
    pub fn is_within_chunk(&self, world_pos: GridPos) -> (r: bool)
        ensures
            r == within_chunk_spec(self@, world_pos),
    {
        world_pos.x >= self.x_min && world_pos.x < self.x_max && world_pos.y >= self.y_min
            && world_pos.y < self.y_max
    }

    /// Gets the particle at the given local position; `None` both for an
    /// empty cell and for an out-of-bounds lookup, which is a normal code
    /// path for neighbour scans at chunk edges.
    pub fn get_particle(&self, local_pos: GridPos) -> (r: Option<Particle>)
        requires
            self@.wf(),
        ensures
            r == chunk_get_spec(self@, local_pos),
    {
        if !self.is_in_bounds(local_pos) {
            return None;
        }
        self.cells[(local_pos.x * CHUNK_SIZE + local_pos.y) as usize]
    }

    /// Sets the cell at the given local position, marking the chunk dirty;
    /// a no-op if the position is out of bounds.
    pub fn set_particle(&mut self, local_pos: GridPos, particle: Option<Particle>)
        requires
            old(self)@.wf(),
        ensures
            final(self)@.wf(),
            final(self)@ == chunk_set_spec(old(self)@, local_pos, particle),
    {
        if !self.is_in_bounds(local_pos) {
            return ;
        }
        self.cells.set((local_pos.x * CHUNK_SIZE + local_pos.y) as usize, particle);
        self.dirty = true;
    }

    /// Recomputes `should_simulate`: true iff some cell holds a liquid.
    fn update_active_state(&mut self)
        requires
            old(self)@.wf(),
        ensures
            final(self)@ == (ChunkView { should_simulate: has_liquid(old(self)@.cells), ..old(self)@ }),
    {
        self.should_simulate = false;

        let mut i: usize = 0;
        while i < CHUNK_AREA
            invariant
                i <= CHUNK_AREA,
                self@.cells.len() == CHUNK_AREA,
                forall|j: int| 0 <= j < i ==> !((#[trigger] self@.cells[j]) matches Some(
                    Particle::Liquid(_),
                )),
                self@ == (ChunkView { should_simulate: false, ..old(self)@ }),
            decreases CHUNK_AREA - i,
        {
            if let Some(Particle::Liquid(_)) = self.cells[i] {
                self.should_simulate = true;
                return ;
            }
            i += 1;
        }
    }

    /// If the chunk is dirty, rescans every cell to recompute
    /// `should_simulate`, then clears the dirty flag. This is the only
    /// place `should_simulate` is recomputed: the flag is refreshed in
    /// batch rather than on every write.
    pub fn trigger_refresh(&mut self)
        requires
            old(self)@.wf(),
        ensures
            final(self)@.wf(),
            !old(self)@.dirty ==> final(self)@ == old(self)@,
            old(self)@.dirty ==> final(self)@ == (ChunkView {
                should_simulate: has_liquid(old(self)@.cells),
                dirty: false,
                ..old(self)@
            }),
    {
        if !self.dirty {
            return ;
        }
        self.update_active_state();
        self.dirty = false;
    }

    /// The render snapshot: one spritesheet index per cell, row-major
    /// (cell `(x, y)` at index `y * CHUNK_SIZE + x`), `0` for empty cells.
    pub fn to_spritesheet_indices(&self) -> (r: Vec<u32>)
        requires
            self@.wf(),
        ensures
            r@.len() == CHUNK_AREA,
            forall|x: int, y: int|
                0 <= x < CHUNK_SIZE && 0 <= y < CHUNK_SIZE ==> #[trigger] r@[y * CHUNK_SIZE + x]
                    == match self@.cells[x * CHUNK_SIZE + y] {
                    Some(p) => p.sprite_spec(),
                    None => 0u32,
                },
    {
        let mut indices: Vec<u32> = Vec::new();
        let mut yy: u32 = 0;
        while yy < CHUNK_SIZE
            invariant
                yy <= CHUNK_SIZE,
                self@.wf(),
                indices@.len() == yy * CHUNK_SIZE,
                forall|x: int, y: int|
                    0 <= x < CHUNK_SIZE && 0 <= y < yy ==> #[trigger] indices@[y * CHUNK_SIZE + x]
                        == match self@.cells[x * CHUNK_SIZE + y] {
                        Some(p) => p.sprite_spec(),
                        None => 0u32,
                    },
            decreases CHUNK_SIZE - yy,
        {
            let mut xx: u32 = 0;
            while xx < CHUNK_SIZE
                invariant
                    xx <= CHUNK_SIZE,
                    yy < CHUNK_SIZE,
                    self@.wf(),
                    indices@.len() == yy * CHUNK_SIZE + xx,
                    forall|x: int, y: int|
                        0 <= x < CHUNK_SIZE && 0 <= y < yy ==> #[trigger] indices@[y * CHUNK_SIZE
                            + x] == match self@.cells[x * CHUNK_SIZE + y] {
                            Some(p) => p.sprite_spec(),
                            None => 0u32,
                        },
                    forall|x: int|
                        0 <= x < xx ==> #[trigger] indices@[yy * CHUNK_SIZE + x] == match self@
                            .cells[x * CHUNK_SIZE + yy as int] {
                            Some(p) => p.sprite_spec(),
                            None => 0u32,
                        },
                decreases CHUNK_SIZE - xx,
            {
                let idx = match self.cells[(xx * CHUNK_SIZE + yy) as usize] {
                    Some(p) => p.get_spritesheet_index(),
                    None => 0,
                };
                indices.push(idx);
                xx += 1;
            }
            yy += 1;
        }
        indices
    }
}


/// Whether a cell of the grid holds something other than a liquid.
pub open spec fn non_liquid_at(cells: Seq<Option<Particle>>, i: int) -> bool {
    match cells[i] {
        Some(p) => !(p matches Particle::Liquid(_)),
        None => false,
    }
}

/// Whether the prior map state agrees with the chunk's own cells at every
/// cell of the chunk that lies inside the map.
pub open spec fn chunk_agrees_with_map(m: WorldMapView, ch: ChunkView) -> bool {
    forall|x: u32, y: u32|
        x < 32 && y < 32 && m.valid_pos(#[trigger] world_cell(ch, x, y)) ==> m.get(
            world_cell(ch, x, y),
        ) == ch.cells[x as int * 32 + y as int]
}

/// What one pass of the interaction phase leaves at local cell `(x, y)`:
/// where the cell and the cell directly above are both occupied and the
/// pair has a rule, the rule's result; otherwise the cell itself.
pub open spec fn interacted_cell(
    cells: Seq<Option<Particle>>,
    t: Seq<(crate::interaction::InteractionPair, crate::interaction::InteractionRule)>,
    x: int,
    y: int,
) -> Option<Particle> {
    if y == 31 {
        cells[x * 32 + y]
    } else {
        match (cells[x * 32 + y + 1], cells[x * 32 + y]) {
            (Some(above), Some(below)) => match lookup_spec(t, above, below) {
                Some(rule) => Some(rule.result),
                None => cells[x * 32 + y],
            },
            _ => cells[x * 32 + y],
        }
    }
}

/// The all-empty in-progress grid a simulation pass starts from.
pub open spec fn empty_cells() -> Seq<Option<Particle>> {
    Seq::new(1024, |i: int| None)
}

/// What processing local cell `k` does to the in-progress state: nothing
/// for an empty cell, a copy into place for a non-liquid, and for a
/// liquid exactly one outcome of the step relation against the state so
/// far, landing in the new cells (same chunk) or queued (other chunk).
pub open spec fn cell_outcome_ok(
    m: WorldMapView,
    ch: ChunkView,
    t: Seq<(InteractionPair, InteractionRule)>,
    k: int,
    nc0: Seq<Option<Particle>>,
    q0: Seq<ParticleMove>,
    nc1: Seq<Option<Particle>>,
    q1: Seq<ParticleMove>,
) -> bool {
    match ch.cells[k] {
        None => nc1 == nc0 && q1 == q0,
        Some(p) => match p {
            Particle::Liquid(f) => exists|out: (GridPos, Particle)|
                {
                    &&& #[trigger] step_ok(
                        StepEnv { m, ch, q: q0, t, nc: nc0 },
                        f,
                        world_cell(ch, (k / 32) as u32, (k % 32) as u32).x,
                        world_cell(ch, (k / 32) as u32, (k % 32) as u32).y,
                        out,
                    )
                    &&& if within_chunk_spec(ch, out.0) {
                        nc1 == nc0.update(local_index(out.0), Some(out.1)) && q1 == q0
                    } else {
                        nc1 == nc0 && insert_effect(
                            q0,
                            ParticleMove {
                                source_pos: world_cell(ch, (k / 32) as u32, (k % 32) as u32),
                                target_pos: out.0,
                                particle: out.1,
                            },
                            q1,
                        )
                    }
                },
            _ => nc1 == nc0.update(k, Some(p)) && q1 == q0,
        },
    }
}

/// A full simulation trace over a chunk: the cells processed one by one
/// in column-major order, starting from an all-empty new grid, each step
/// related to the next by `cell_outcome_ok`.
pub open spec fn simulate_trace_ok(
    m: WorldMapView,
    ch: ChunkView,
    t: Seq<(InteractionPair, InteractionRule)>,
    ncs: Seq<Seq<Option<Particle>>>,
    qs: Seq<Seq<ParticleMove>>,
) -> bool {
    &&& ncs.len() == 1025
    &&& qs.len() == 1025
    &&& ncs[0] == empty_cells()
    &&& forall|k: int|
        0 <= k < 1024 ==> #[trigger] cell_outcome_ok(m, ch, t, k, ncs[k], qs[k], ncs[k + 1],
            qs[k + 1])
}

/// How one chunk tick relates the chunk and the queue: a chunk with
/// nothing to simulate is untouched, and a simulated one ends as the
/// final grid of some trace, marked dirty, with the queue threaded
/// through that trace.
pub open spec fn chunk_sim_ok(
    m: WorldMapView,
    t: Seq<(InteractionPair, InteractionRule)>,
    ch0: ChunkView,
    ch1: ChunkView,
    q0: Seq<ParticleMove>,
    q1: Seq<ParticleMove>,
) -> bool {
    if !ch0.should_simulate {
        ch1 == ch0 && q1 == q0
    } else {
        exists|ncs: Seq<Seq<Option<Particle>>>, qs: Seq<Seq<ParticleMove>>|
            {
                &&& #[trigger] simulate_trace_ok(m, ch0, t, ncs, qs)
                &&& qs[0] == q0
                &&& qs[1024] == q1
                &&& ch1 == (ChunkView { cells: ncs[1024], dirty: true, ..ch0 })
            }
    }
}

/// A step whose outcome lands inside the simulated chunk never overwrites
/// a non-liquid cell, as long as the rule table pairs only liquids: the
/// written cell was validated empty or holding a rule partner, and a
/// non-liquid cell is neither.
#[verifier::rlimit(100)]
#[verifier::spinoff_prover]
proof fn lemma_step_write_protects(
    env: StepEnv,
    fluid: crate::particle::Liquid,
    x: u32,
    y: u32,
    out: (GridPos, Particle),
    idx: int,
)
    requires
        env.ch.wf(),
        env.nc.len() == 1024,
        chunk_agrees_with_map(env.m, env.ch),
        rules_among_liquids(env.t),
        x < 32,
        y < 32,
        idx == x * 32 + y,
        env.ch.cells[idx] == Some(Particle::Liquid(fluid)),
        crate::fluid::empty_ok(env, out.0) || crate::fluid::inter_ok(
            env,
            out.0,
            Particle::Liquid(fluid),
        ) || out == (
            world_cell(env.ch, x, y),
            Particle::Liquid(
                crate::particle::with_direction(
                    fluid,
                    crate::particle::opposite_dir(crate::particle::direction_of(fluid)),
                ),
            ),
        ),
        within_chunk_spec(env.ch, out.0),
        forall|i: int|
            0 <= i < 1024 && non_liquid_at(env.ch.cells, i) ==> env.nc[i] == (if i < idx {
                env.ch.cells[i]
            } else {
                None
            }),
    ensures
        forall|i: int|
            0 <= i < 1024 && non_liquid_at(env.ch.cells, i) ==> env.nc.update(
                local_index(out.0),
                Some(out.1),
            )[i] == (if i < idx {
                env.ch.cells[i]
            } else {
                None
            }),
{
    let world = world_cell(env.ch, x, y);
    let j = local_index(out.0);
    let lx = out.0.x as int % 32;
    let ly = out.0.y as int % 32;
    assert(out.0.x as int == env.ch.position.x * 32 + lx);
    assert(out.0.y as int == env.ch.position.y * 32 + ly);
    assert(out.0 == world_cell(env.ch, lx as u32, ly as u32));
    assert(j == lx * 32 + ly);
    assert(local_index(world) == idx);
    assert forall|i: int| 0 <= i < 1024 && non_liquid_at(env.ch.cells, i) implies env.nc.update(
        j,
        Some(out.1),
    )[i] == (if i < idx {
        env.ch.cells[i]
    } else {
        None
    }) by {
        if i == j {
            let p_i = env.ch.cells[i].unwrap();
            if out == (
                world,
                Particle::Liquid(
                    crate::particle::with_direction(
                        fluid,
                        crate::particle::opposite_dir(crate::particle::direction_of(fluid)),
                    ),
                ),
            ) {
                assert(j == idx);
                assert(false);
            } else if crate::fluid::empty_ok(env, out.0) {
                if i < idx {
                    assert(env.nc[i] == Some(p_i));
                    assert(false);
                } else {
                    assert(env.m.valid_pos(out.0));
                    assert(env.m.get(out.0) == env.ch.cells[i]);
                    assert(false);
                }
            } else {
                assert(crate::fluid::inter_ok(env, out.0, Particle::Liquid(fluid)));
                if i < idx {
                    assert(env.nc[i] == Some(p_i));
                    crate::interaction::lemma_non_liquid_finds_no_rule(
                        env.t,
                        Particle::Liquid(fluid),
                        p_i,
                    );
                    assert(false);
                } else {
                    assert(env.nc[i] is None);
                    assert(false);
                }
            }
        }
    }
}

impl Chunk {
    /// Simulates one tick of fluid movement in this chunk, reading the
    /// prior map state and writing same-chunk destinations into a fresh
    /// cell grid and cross-chunk destinations into the shared queue. A
    /// chunk with nothing to simulate is returned as an unchanged clone.
    /// The final cells and queue are exactly the end of a per-cell trace
    /// of the step relation, and with a rule table that pairs only
    /// liquids, every non-liquid cell stays exactly where it was.
    #[verifier::rlimit(100)]
    pub fn simulate(&mut self, map: &WorldMap, table: &InteractionTable, queue: &mut MoveQueue) -> (r:
        Chunk)
        requires
            old(self)@.wf(),
            map@.wf(),
            queue_wf(old(queue)@),
            chunk_agrees_with_map(map@, old(self)@),
            forall|e: ParticleMove|
                #[trigger] old(queue)@.contains(e) ==> map@.valid_pos(e.target_pos),
        ensures
            final(self)@.wf(),
            r@ == final(self)@,
            final(self)@.position == old(self)@.position,
            final(self)@.should_simulate == old(self)@.should_simulate,
            final(self)@.cells.len() == CHUNK_AREA,
            !old(self)@.should_simulate ==> final(self)@ == old(self)@ && final(queue)@ == old(queue)@,
            old(self)@.should_simulate ==> final(self)@.dirty,
            queue_wf(final(queue)@),
            forall|p: GridPos|
                queue_has_target(old(queue)@, p) ==> queue_has_target(final(queue)@, p),
            forall|e: ParticleMove|
                #[trigger] final(queue)@.contains(e) ==> map@.valid_pos(e.target_pos),
            forall|e: ParticleMove|
                #[trigger] final(queue)@.contains(e) ==> old(queue)@.contains(e) || (
                !within_chunk_spec(old(self)@, e.target_pos) && within_chunk_spec(
                    old(self)@,
                    e.source_pos,
                )),
            old(self)@.should_simulate && rules_among_liquids(table@) ==> forall|i: int|
                0 <= i < CHUNK_AREA && non_liquid_at(old(self)@.cells, i) ==> final(self)@.cells[i]
                    == old(self)@.cells[i],
            chunk_sim_ok(map@, table@, old(self)@, final(self)@, old(queue)@, final(queue)@),
    {
        if !self.should_simulate {
            let r = self.clone();
            return r;
        }

        let original = self.clone();
        let mut new_cells: Vec<Option<Particle>> = Vec::new();
        let mut k: usize = 0;
        while k < CHUNK_AREA
            invariant
                k <= CHUNK_AREA,
                new_cells@.len() == k,
                forall|j: int| 0 <= j < k ==> new_cells@[j] is None,
            decreases CHUNK_AREA - k,
        {
            new_cells.push(None);
            k += 1;
        }

        let ghost mut ncs: Seq<Seq<Option<Particle>>> = seq![new_cells@];
        let ghost mut qs: Seq<Seq<ParticleMove>> = seq![queue@];
        proof {
            assert(new_cells@ =~= empty_cells());
        }

        let mut idx: u32 = 0;
        while idx < CHUNK_AREA as u32
            invariant
                idx <= CHUNK_AREA,
                map@.wf(),
                original@.wf(),
                original@ == old(self)@,
                self@ == old(self)@,
                new_cells@.len() == CHUNK_AREA,
                queue_wf(queue@),
                chunk_agrees_with_map(map@, original@),
                forall|p: GridPos|
                    queue_has_target(old(queue)@, p) ==> queue_has_target(queue@, p),
                forall|e: ParticleMove|
                    #[trigger] queue@.contains(e) ==> map@.valid_pos(e.target_pos),
                forall|e: ParticleMove|
                    #[trigger] queue@.contains(e) ==> old(queue)@.contains(e) || (
                    !within_chunk_spec(original@, e.target_pos) && within_chunk_spec(
                        original@,
                        e.source_pos,
                    )),
                rules_among_liquids(table@) ==> forall|i: int|
                    0 <= i < CHUNK_AREA && non_liquid_at(original@.cells, i) ==> new_cells@[i]
                        == (if i < idx {
                        original@.cells[i]
                    } else {
                        None
                    }),
                ncs.len() == idx + 1,
                qs.len() == idx + 1,
                ncs[0] == empty_cells(),
                qs[0] == old(queue)@,
                ncs[idx as int] == new_cells@,
                qs[idx as int] == queue@,
                forall|k: int|
                    0 <= k < idx ==> #[trigger] cell_outcome_ok(map@, original@, table@, k,
                    ncs[k], qs[k], ncs[k + 1], qs[k + 1]),
            decreases CHUNK_AREA - idx,
        {
            let x = idx / CHUNK_SIZE;
            let y = idx % CHUNK_SIZE;
            proof {
                assert(x < 32 && y < 32 && x as int * 32 + y as int == idx as int);
            }
            let ghost q0 = queue@;
            let ghost nc0 = new_cells@;
            match original.cells[idx as usize] {
                None => {
                    proof {
                        assert(!non_liquid_at(original@.cells, idx as int));
                        ncs = ncs.push(new_cells@);
                        qs = qs.push(queue@);
                        assert(cell_outcome_ok(map@, original@, table@, idx as int, nc0, q0,
                            new_cells@, queue@));
                    }
                },
                Some(Particle::Liquid(fluid)) => {
                    let mv = {
                        let context = SimulationContext::new(map, &original, queue);
                        FluidSimulator.simulate(&context, table, &mut new_cells, fluid, x, y)
                    };
                    proof {
                        let world = world_cell(original@, x, y);
                        let env = StepEnv {
                            m: map@,
                            ch: original@,
                            q: q0,
                            t: table@,
                            nc: nc0,
                        };
                        let out = choose|out: (GridPos, Particle)|
                            #[trigger] step_ok(env, fluid, world.x, world.y, out)
                                && sim_effect_ok(original@, world, out, mv, nc0, new_cells@);
                        crate::fluid::lemma_step_outcome(env, fluid, world.x, world.y, out);
                        assert(within_chunk_spec(original@, world));
                        if within_chunk_spec(original@, out.0) {
                            assert(mv is None);
                            assert(new_cells@ == nc0.update(local_index(out.0), Some(out.1)));
                            if rules_among_liquids(table@) {
                                lemma_step_write_protects(env, fluid, x, y, out, idx as int);
                            }
                        } else {
                            assert(new_cells@ == nc0);
                            assert(mv == Some(
                                ParticleMove {
                                    source_pos: world,
                                    target_pos: out.0,
                                    particle: out.1,
                                },
                            ));
                            assert(map@.valid_pos(out.0));
                        }
                    }
                    if let Some(particle_move) = mv {
                        queue.insert(particle_move);
                    }
                    proof {
                        ncs = ncs.push(new_cells@);
                        qs = qs.push(queue@);
                        let world = world_cell(original@, x, y);
                        let env = StepEnv { m: map@, ch: original@, q: q0, t: table@, nc: nc0 };
                        let out = choose|out: (GridPos, Particle)|
                            #[trigger] step_ok(env, fluid, world.x, world.y, out)
                                && sim_effect_ok(original@, world, out, mv, nc0, ncs.last());
                        assert(world == world_cell(original@, (idx as int / 32) as u32, (idx as int
                            % 32) as u32));
                        if within_chunk_spec(original@, out.0) {
                            assert(mv is None);
                        } else {
                            assert(mv == Some(
                                ParticleMove {
                                    source_pos: world,
                                    target_pos: out.0,
                                    particle: out.1,
                                },
                            ));
                            assert(insert_effect(q0, mv.unwrap(), queue@));
                        }
                        assert(cell_outcome_ok(map@, original@, table@, idx as int, nc0, q0,
                            new_cells@, queue@));
                    }
                },
                Some(p) => {
                    new_cells.set(idx as usize, Some(p));
                    proof {
                        ncs = ncs.push(new_cells@);
                        qs = qs.push(queue@);
                        assert(cell_outcome_ok(map@, original@, table@, idx as int, nc0, q0,
                            new_cells@, queue@));
                    }
                },
            }
            idx += 1;
        }

        proof {
            assert(simulate_trace_ok(map@, original@, table@, ncs, qs));
        }

        self.cells = new_cells;
        self.dirty = true;

        let r = self.clone();
        proof {
            assert(self@ == (ChunkView { cells: ncs[1024], dirty: true, ..original@ }));
            assert(chunk_sim_ok(map@, table@, old(self)@, self@, old(queue)@, queue@));
        }
        r
    }

    /// One interaction pass: for every cell, if it and the cell directly
    /// above are both occupied and the pair has a rule, the cell takes the
    /// rule's result; exactly one pass, with no cascading re-evaluation.
    pub fn process_interactions(&mut self, table: &InteractionTable) -> (r: Chunk)
        requires
            old(self)@.wf(),
        ensures
            final(self)@.wf(),
            r@ == final(self)@,
            final(self)@.position == old(self)@.position,
            final(self)@.should_simulate == old(self)@.should_simulate,
            final(self)@.dirty,
            forall|x: int, y: int|
                0 <= x < CHUNK_SIZE && 0 <= y < CHUNK_SIZE ==> final(self)@.cells[x * 32 + y]
                    == #[trigger] interacted_cell(old(self)@.cells, table@, x, y),
    {
        let original = self.clone();
        let mut new_cells: Vec<Option<Particle>> = Vec::new();
        let mut x: u32 = 0;
        while x < CHUNK_SIZE
            invariant
                x <= CHUNK_SIZE,
                original@ == old(self)@,
                original@.wf(),
                new_cells@.len() == x * CHUNK_SIZE,
                forall|xi: int, yi: int|
                    0 <= xi < x && 0 <= yi < CHUNK_SIZE ==> new_cells@[xi * 32 + yi]
                        == #[trigger] interacted_cell(original@.cells, table@, xi, yi),
            decreases CHUNK_SIZE - x,
        {
            let mut y: u32 = 0;
            while y < CHUNK_SIZE
                invariant
                    y <= CHUNK_SIZE,
                    x < CHUNK_SIZE,
                    original@ == old(self)@,
                    original@.wf(),
                    new_cells@.len() == x * CHUNK_SIZE + y,
                    forall|xi: int, yi: int|
                        0 <= xi < x && 0 <= yi < CHUNK_SIZE ==> new_cells@[xi * 32 + yi]
                            == #[trigger] interacted_cell(original@.cells, table@, xi, yi),
                    forall|yi: int|
                        0 <= yi < y ==> new_cells@[x as int * 32 + yi] == #[trigger] interacted_cell(
                            original@.cells,
                            table@,
                            x as int,
                            yi,
                        ),
                decreases CHUNK_SIZE - y,
            {
                let below = original.cells[(x * CHUNK_SIZE + y) as usize];
                if y == CHUNK_SIZE - 1 {
                    new_cells.push(below);
                } else {
                    let above = original.cells[(x * CHUNK_SIZE + y + 1) as usize];
                    match (above, below) {
                        (Some(a), Some(b)) => match table.lookup(a, b) {
                            Some(rule) => {
                                new_cells.push(Some(rule.result));
                            },
                            None => {
                                new_cells.push(below);
                            },
                        },
                        _ => {
                            new_cells.push(below);
                        },
                    }
                }
                y += 1;
            }
            proof {
                assert((x + 1) * CHUNK_SIZE == x * CHUNK_SIZE + CHUNK_SIZE);
            }
            x += 1;
        }
        self.cells = new_cells;
        self.dirty = true;
        let r = self.clone();
        r
    }
}

/// How many cells of the grid hold a particle of the same kind as `p`:
/// liquids count together whatever their direction, since direction is
/// simulation state, not identity.
pub open spec fn count_kind(cells: Seq<Option<Particle>>, p: Particle) -> int
    decreases cells.len(),
{
    if cells.len() == 0 {
        0
    } else {
        count_kind(cells.drop_last(), p) + (match cells.last() {
            Some(q) => if kind_eq(q, p) {
                1int
            } else {
                0int
            },
            None => 0int,
        })
    }
}

/// How many cells of the grid are occupied.
pub open spec fn occupied_count(cells: Seq<Option<Particle>>) -> int
    decreases cells.len(),
{
    if cells.len() == 0 {
        0
    } else {
        occupied_count(cells.drop_last()) + (if cells.last() is Some {
            1int
        } else {
            0int
        })
    }
}

/// The total of all tallied counts.
pub open spec fn sum_counts(entries: Seq<(Particle, u32)>) -> int
    decreases entries.len(),
{
    if entries.len() == 0 {
        0
    } else {
        sum_counts(entries.drop_last()) + entries.last().1
    }
}

/// A kind count never exceeds the number of cells.
pub proof fn lemma_count_kind_le_len(cells: Seq<Option<Particle>>, p: Particle)
    ensures
        0 <= count_kind(cells, p) <= cells.len(),
    decreases cells.len(),
{
    if cells.len() > 0 {
        lemma_count_kind_le_len(cells.drop_last(), p);
    }
}

/// Appending an entry adds its count to the total.
pub proof fn lemma_sum_counts_push(entries: Seq<(Particle, u32)>, e: (Particle, u32))
    ensures
        sum_counts(entries.push(e)) == sum_counts(entries) + e.1,
{
    assert(entries.push(e).drop_last() =~= entries);
}

/// Replacing one entry shifts the total by the difference of the counts.
pub proof fn lemma_sum_counts_update(entries: Seq<(Particle, u32)>, j: int, e: (Particle, u32))
    requires
        0 <= j < entries.len(),
    ensures
        sum_counts(entries.update(j, e)) == sum_counts(entries) - entries[j].1 + e.1,
    decreases entries.len(),
{
    if j == entries.len() - 1 {
        assert(entries.update(j, e).drop_last() =~= entries.drop_last());
    } else {
        assert(entries.update(j, e).drop_last() =~= entries.drop_last().update(j, e));
        lemma_sum_counts_update(entries.drop_last(), j, e);
    }
}

impl Chunk {
    /// Tallies the chunk's occupants by kind: one entry per particle kind
    /// present (liquids merged over their directions), carrying exactly
    /// how many cells hold that kind; the counts add up to the number of
    /// occupied cells.
    #[verifier::rlimit(100)]
    #[verifier::spinoff_prover]
    pub fn get_composition(&self) -> (r: Vec<(Particle, u32)>)
        requires
            self@.wf(),
        ensures
            forall|j: int|
                0 <= j < r@.len() ==> (#[trigger] r@[j]).1 == count_kind(self@.cells, r@[j].0)
                    && r@[j].1 >= 1,
            forall|j1: int, j2: int|
                0 <= j1 < j2 < r@.len() ==> !kind_eq((#[trigger] r@[j1]).0, (#[trigger] r@[j2]).0),
            forall|p: Particle|
                count_kind(self@.cells, p) > 0 ==> exists|j: int|
                    0 <= j < r@.len() && kind_eq((#[trigger] r@[j]).0, p),
            sum_counts(r@) == occupied_count(self@.cells),
    {
        let mut composition: Vec<(Particle, u32)> = Vec::new();
        let mut i: usize = 0;
        proof {
            assert(self@.cells.take(0) =~= Seq::<Option<Particle>>::empty());
        }
        while i < CHUNK_AREA
            invariant
                i <= CHUNK_AREA,
                self@.wf(),
                forall|j: int|
                    0 <= j < composition@.len() ==> (#[trigger] composition@[j]).1 == count_kind(
                        self@.cells.take(i as int),
                        composition@[j].0,
                    ) && composition@[j].1 >= 1,
                forall|j1: int, j2: int|
                    0 <= j1 < j2 < composition@.len() ==> !kind_eq(
                        (#[trigger] composition@[j1]).0,
                        (#[trigger] composition@[j2]).0,
                    ),
                forall|p: Particle|
                    count_kind(self@.cells.take(i as int), p) > 0 ==> exists|j: int|
                        0 <= j < composition@.len() && kind_eq((#[trigger] composition@[j]).0, p),
                sum_counts(composition@) == occupied_count(self@.cells.take(i as int)),
            decreases CHUNK_AREA - i,
        {
            let ghost prefix = self@.cells.take(i as int);
            let ghost prefix1 = self@.cells.take(i as int + 1);
            proof {
                assert(prefix1.drop_last() =~= prefix);
                assert(prefix1.last() == self@.cells[i as int]);
            }
            match self.cells[i] {
                None => {
                    proof {
                        assert forall|p: Particle| count_kind(prefix1, p) == count_kind(
                            prefix,
                            p,
                        ) by {}
                    }
                },
                Some(p) => {
                    let n = composition.len();
                    let mut j: usize = 0;
                    let mut found = false;
                    while j < n && !found
                        invariant
                            j <= n,
                            n == composition@.len(),
                            !found ==> forall|k: int|
                                0 <= k < j ==> !kind_eq((#[trigger] composition@[k]).0, p),
                            found ==> j < n && kind_eq(composition@[j as int].0, p),
                        decreases n - j + (if found {
                            0int
                        } else {
                            1int
                        }),
                    {
                        if crate::interaction::particle_kind_eq(composition[j].0, p) {
                            found = true;
                        } else {
                            j += 1;
                        }
                    }
                    let ghost before = composition@;
                    if found {
                        let (key, current) = composition[j];
                        proof {
                            lemma_count_kind_le_len(prefix, key);
                        }
                        composition.set(j, (key, current + 1));
                        proof {
                            lemma_sum_counts_update(before, j as int, (key, (current + 1) as u32));
                            assert forall|jj: int|
                                0 <= jj < composition@.len() implies (#[trigger] composition@[
                            jj]).1 == count_kind(prefix1, composition@[jj].0) && composition@[jj].1
                                >= 1 by {
                                let kj = composition@[jj].0;
                                if jj == j {
                                    assert(kind_eq(p, kj));
                                    assert(count_kind(prefix1, kj) == count_kind(prefix, kj) + 1);
                                } else {
                                    assert(before[jj].1 == count_kind(prefix, kj));
                                    if kind_eq(p, kj) {
                                        assert(kind_eq(key, p) && kind_eq(p, kj));
                                        if jj < j {
                                            assert(!kind_eq(before[jj].0, before[j as int].0));
                                        } else {
                                            assert(!kind_eq(before[j as int].0, before[jj].0));
                                        }
                                        assert(false);
                                    }
                                    assert(count_kind(prefix1, kj) == count_kind(prefix, kj));
                                }
                            }
                            assert forall|q: Particle|
                                count_kind(prefix1, q) > 0 implies exists|jj: int|
                                0 <= jj < composition@.len() && kind_eq(
                                    (#[trigger] composition@[jj]).0,
                                    q,
                                ) by {
                                if kind_eq(p, q) {
                                    assert(kind_eq(composition@[j as int].0, q));
                                } else {
                                    assert(count_kind(prefix, q) == count_kind(prefix1, q));
                                    let jj = choose|jj: int|
                                        0 <= jj < before.len() && kind_eq(
                                            (#[trigger] before[jj]).0,
                                            q,
                                        );
                                    assert(kind_eq(composition@[jj].0, q));
                                }
                            }
                        }
                    } else {
                        proof {
                            lemma_count_kind_le_len(prefix, p);
                            if count_kind(prefix, p) > 0 {
                                let jj = choose|jj: int|
                                    0 <= jj < composition@.len() && kind_eq(
                                        (#[trigger] composition@[jj]).0,
                                        p,
                                    );
                                assert(!kind_eq(composition@[jj].0, p));
                                assert(false);
                            }
                            assert(count_kind(prefix, p) == 0);
                        }
                        composition.push((p, 1));
                        proof {
                            lemma_sum_counts_push(before, (p, 1u32));
                            assert forall|jj: int|
                                0 <= jj < composition@.len() implies (#[trigger] composition@[
                            jj]).1 == count_kind(prefix1, composition@[jj].0) && composition@[jj].1
                                >= 1 by {
                                let kj = composition@[jj].0;
                                if jj == composition@.len() - 1 {
                                    assert(kind_eq(p, p));
                                    assert(count_kind(prefix1, p) == count_kind(prefix, p) + 1);
                                } else {
                                    assert(before[jj].1 == count_kind(prefix, kj));
                                    assert(!kind_eq(kj, p));
                                    assert(!kind_eq(p, kj));
                                    assert(count_kind(prefix1, kj) == count_kind(prefix, kj));
                                }
                            }
                            assert forall|q: Particle|
                                count_kind(prefix1, q) > 0 implies exists|jj: int|
                                0 <= jj < composition@.len() && kind_eq(
                                    (#[trigger] composition@[jj]).0,
                                    q,
                                ) by {
                                if kind_eq(p, q) {
                                    assert(kind_eq(
                                        composition@[composition@.len() - 1].0,
                                        q,
                                    ));
                                } else {
                                    assert(count_kind(prefix1, q) == count_kind(prefix, q));
                                    let jj = choose|jj: int|
                                        0 <= jj < before.len() && kind_eq(
                                            (#[trigger] before[jj]).0,
                                            q,
                                        );
                                    assert(kind_eq(composition@[jj].0, q));
                                }
                            }
                        }
                    }
                },
            }
            i += 1;
        }
        proof {
            assert(self@.cells.take(CHUNK_AREA as int) =~= self@.cells);
        }
        composition
    }
}

/// Writing a particle and reading it back at the same in-bounds local
/// position returns that particle, and leaves every other cell unchanged.
pub proof fn lemma_chunk_set_get_roundtrip(c: ChunkView, local: GridPos, p: Option<Particle>)
    requires
        c.wf(),
        local.x < CHUNK_SIZE,
        local.y < CHUNK_SIZE,
    ensures
        chunk_get_spec(chunk_set_spec(c, local, p), local) == p,
        forall|other: GridPos|
            other != local ==> #[trigger] chunk_get_spec(chunk_set_spec(c, local, p), other)
                == chunk_get_spec(c, other),
{
    assert forall|other: GridPos|
        other != local implies #[trigger] chunk_get_spec(chunk_set_spec(c, local, p), other)
        == chunk_get_spec(c, other) by {
        if other.x < CHUNK_SIZE && other.y < CHUNK_SIZE {
            assert(other.x * CHUNK_SIZE + other.y != local.x * CHUNK_SIZE + local.y);
        }
    }
}

} // verus!
