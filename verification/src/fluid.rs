//! The fluid-movement step: for one liquid cell, the single destination it
//! takes this tick — the longest unobstructed fall, else a diagonal slide,
//! else one step of horizontal creep, else a direction flip in place.
use vstd::prelude::*;
use vstd::pervasive::VecAdditionalExecFns;

use crate::chunk::{Chunk, ChunkView, ParticleMove, CHUNK_SIZE, within_chunk_spec};
use crate::coords::{world_to_local, GridPos};
use crate::interaction::{lookup_spec, InteractionPair, InteractionRule, InteractionTable};
use crate::particle::{dir_step, direction_of, opposite_dir, viscosity_of, with_direction, Liquid,
    Particle};
use crate::queue::{queue_has_target, MoveQueue};
use crate::world::{WorldMap, WorldMapView};

verus! {

/// Everything a step decision reads: the prior map state, the chunk being
/// simulated, the pending cross-chunk queue, the rule table, and the
/// chunk's in-progress new cell state.
pub struct StepEnv {
    pub m: WorldMapView,
    pub ch: ChunkView,
    pub q: Seq<ParticleMove>,
    pub t: Seq<(InteractionPair, InteractionRule)>,
    pub nc: Seq<Option<Particle>>,
}

/// Clamps an offset coordinate at the world floor or wall.
pub open spec fn clamp0(v: int) -> int {
    if v < 0 {
        0
    } else {
        v
    }
}

/// The flat index of a world position inside its chunk.
pub open spec fn local_index(pos: GridPos) -> int {
    (pos.x as int % 32) * 32 + (pos.y as int % 32)
}

/// A destination counts as empty when the prior map state has nothing
/// there and, within the simulated chunk, the new state has nothing there
/// either; outside the chunk, no queued move may already claim it.
pub open spec fn empty_ok(env: StepEnv, pos: GridPos) -> bool {
    &&& env.m.valid_pos(pos)
    &&& env.m.get(pos) is None
    &&& if within_chunk_spec(env.ch, pos) {
        env.nc[local_index(pos)] is None
    } else {
        !queue_has_target(env.q, pos)
    }
}

/// A destination triggers an interaction when the prior map state holds a
/// rule partner there and, within the simulated chunk, the new state holds
/// a rule partner too; outside the chunk, no queued move may claim it.
pub open spec fn inter_ok(env: StepEnv, pos: GridPos, p: Particle) -> bool {
    &&& env.m.valid_pos(pos)
    &&& match env.m.get(pos) {
        Some(target) => lookup_spec(env.t, p, target) is Some,
        None => false,
    }
    &&& if within_chunk_spec(env.ch, pos) {
        match env.nc[local_index(pos)] {
            Some(nt) => lookup_spec(env.t, p, nt) is Some,
            None => false,
        }
    } else {
        !queue_has_target(env.q, pos)
    }
}

/// The particle an interaction at `pos` produces, as the rule table maps
/// the moving particle and the prior occupant.
pub open spec fn inter_result(env: StepEnv, pos: GridPos, p: Particle) -> Particle {
    match env.m.get(pos) {
        Some(target) => match lookup_spec(env.t, p, target) {
            Some(rule) => rule.result,
            None => p,
        },
        None => p,
    }
}

/// The vertical candidate at scan offset `o`: straight down `o` cells,
/// clipped at the floor.
pub open spec fn vert_pos(x: u32, y: u32, o: int) -> GridPos {
    GridPos { x, y: clamp0(y - o) as u32 }
}

/// The diagonal candidate one step down and `o` cells towards smaller x.
pub open spec fn diag_pos_r(x: u32, y: u32, o: int) -> GridPos {
    GridPos { x: clamp0(x - o) as u32, y: clamp0(y - 1) as u32 }
}

/// The diagonal candidate one step down and `o` cells towards larger x.
pub open spec fn diag_pos_l(x: u32, y: u32, o: int) -> GridPos {
    GridPos { x: (x + o) as u32, y: clamp0(y - 1) as u32 }
}

/// Whether the vertical scan hits at offset `o`.
pub open spec fn vhit(env: StepEnv, f: Liquid, x: u32, y: u32, o: int) -> bool {
    empty_ok(env, vert_pos(x, y, o)) || inter_ok(env, vert_pos(x, y, o), Particle::Liquid(f))
}

/// The outcome the vertical scan yields at offset `o`.
pub open spec fn vert_out_ok(
    env: StepEnv,
    f: Liquid,
    x: u32,
    y: u32,
    o: int,
    out: (GridPos, Particle),
) -> bool {
    let pos = vert_pos(x, y, o);
    if empty_ok(env, pos) {
        out == (pos, Particle::Liquid(f))
    } else {
        out == (pos, inter_result(env, pos, Particle::Liquid(f)))
    }
}

/// Whether the diagonal scan hits at offset `o`.
pub open spec fn dhit(env: StepEnv, f: Liquid, x: u32, y: u32, o: int) -> bool {
    ||| empty_ok(env, diag_pos_r(x, y, o))
    ||| empty_ok(env, diag_pos_l(x, y, o))
    ||| inter_ok(env, diag_pos_r(x, y, o), Particle::Liquid(f))
    ||| inter_ok(env, diag_pos_l(x, y, o), Particle::Liquid(f))
}

/// The outcome the diagonal scan yields at offset `o`: a uniformly random
/// side when both are open, else whichever single side is open, with empty
/// cells preferred over interactions side by side.
pub open spec fn diag_out_ok(
    env: StepEnv,
    f: Liquid,
    x: u32,
    y: u32,
    o: int,
    out: (GridPos, Particle),
) -> bool {
    let r = diag_pos_r(x, y, o);
    let l = diag_pos_l(x, y, o);
    let p = Particle::Liquid(f);
    if empty_ok(env, r) && empty_ok(env, l) {
        out == (r, p) || out == (l, p)
    } else if inter_ok(env, r, p) && inter_ok(env, l, p) {
        out == (r, inter_result(env, r, p)) || out == (l, inter_result(env, l, p))
    } else if empty_ok(env, r) {
        out == (r, p)
    } else if inter_ok(env, r, p) {
        out == (r, inter_result(env, r, p))
    } else if empty_ok(env, l) {
        out == (l, p)
    } else {
        out == (l, inter_result(env, l, p))
    }
}

/// The outcome of horizontal creep: one step in the stored bias direction
/// if open, else an interaction there, else a flip in place.
pub open spec fn horiz_out_ok(
    env: StepEnv,
    f: Liquid,
    x: u32,
    y: u32,
    out: (GridPos, Particle),
) -> bool {
    let h = GridPos { x: clamp0(x + dir_step(direction_of(f))) as u32, y };
    let p = Particle::Liquid(f);
    if empty_ok(env, h) {
        out == (h, p)
    } else if inter_ok(env, h, p) {
        out == (h, inter_result(env, h, p))
    } else {
        out == (GridPos { x, y }, Particle::Liquid(with_direction(f, opposite_dir(direction_of(f)))))
    }
}

/// The full step relation: the farthest vertical hit wins; failing that,
/// the farthest diagonal hit; failing that, horizontal creep or a flip.
pub open spec fn step_ok(
    env: StepEnv,
    f: Liquid,
    x: u32,
    y: u32,
    out: (GridPos, Particle),
) -> bool {
    let v = viscosity_of(f) as int;
    if exists|o: int| 0 <= o <= v && #[trigger] vhit(env, f, x, y, o) {
        exists|o: int|
            {
                &&& 0 <= o <= v
                &&& #[trigger] vhit(env, f, x, y, o)
                &&& forall|o2: int| o < o2 <= v ==> !(#[trigger] vhit(env, f, x, y, o2))
                &&& vert_out_ok(env, f, x, y, o, out)
            }
    } else if exists|o: int| 0 <= o <= v && #[trigger] dhit(env, f, x, y, o) {
        exists|o: int|
            {
                &&& 0 <= o <= v
                &&& #[trigger] dhit(env, f, x, y, o)
                &&& forall|o2: int| o < o2 <= v ==> !(#[trigger] dhit(env, f, x, y, o2))
                &&& diag_out_ok(env, f, x, y, o, out)
            }
    } else {
        horiz_out_ok(env, f, x, y, out)
    }
}

/// The world coordinates of local cell `(x, y)` of chunk `ch`.
pub open spec fn world_cell(ch: ChunkView, x: u32, y: u32) -> GridPos {
    GridPos {
        x: (ch.position.x * CHUNK_SIZE + x) as u32,
        y: (ch.position.y * CHUNK_SIZE + y) as u32,
    }
}

/// How one step's outcome lands: inside the simulated chunk it is written
/// into the new cell state, outside it becomes exactly one queued move.
pub open spec fn sim_effect_ok(
    ch: ChunkView,
    world: GridPos,
    out: (GridPos, Particle),
    r: Option<ParticleMove>,
    old_nc: Seq<Option<Particle>>,
    new_nc: Seq<Option<Particle>>,
) -> bool {
    if within_chunk_spec(ch, out.0) {
        r is None && new_nc == old_nc.update(local_index(out.0), Some(out.1))
    } else {
        r == Some(ParticleMove { source_pos: world, target_pos: out.0, particle: out.1 }) && new_nc
            == old_nc
    }
}

/// The read-only surroundings of one chunk's simulation pass.
pub struct SimulationContext<'a> {
    /// The prior map state the pass reads.
    pub map: &'a WorldMap,
    /// The chunk being simulated, in its prior state.
    pub original_chunk: &'a Chunk,
    /// The cross-chunk moves queued so far this tick.
    pub chunk_queue: &'a MoveQueue,
}

impl<'a> SimulationContext<'a> {
    /// Bundles the shared state one simulation pass reads.
    pub fn new(map: &'a WorldMap, original_chunk: &'a Chunk, chunk_queue: &'a MoveQueue) -> (r:
        Self)
        ensures
            r.map == map,
            r.original_chunk == original_chunk,
            r.chunk_queue == chunk_queue,
    {
        SimulationContext { map, original_chunk, chunk_queue }
    }

    /// The spec-level environment this context denotes, over a given rule
    /// table and new-cell state.
    pub open spec fn env(
        self,
        t: Seq<(InteractionPair, InteractionRule)>,
        nc: Seq<Option<Particle>>,
    ) -> StepEnv {
        StepEnv { m: self.map@, ch: self.original_chunk@, q: self.chunk_queue@, t, nc }
    }

    /// Whether all context parts are well-formed.
    pub open spec fn wf(self) -> bool {
        self.map@.wf() && self.original_chunk@.wf()
    }
}

/// Checks if a particle can move to `new_pos` as to an empty cell: the
/// prior map state must be empty there, and so must the chunk's new state
/// (inside the chunk) or the queue's claims (outside it).
pub fn validate_move_empty(
    context: &SimulationContext,
    new_cells: &Vec<Option<Particle>>,
    new_pos: GridPos,
) -> (r: bool)
    requires
        context.wf(),
        new_cells@.len() == 1024,
    ensures
        forall|t: Seq<(InteractionPair, InteractionRule)>|
            r == empty_ok(#[trigger] context.env(t, new_cells@), new_pos),
{
    if !context.map.is_valid_position(new_pos) {
        return false;
    }
    if context.original_chunk.is_within_chunk(new_pos) {
        let local = world_to_local(new_pos);
        new_cells[(local.x * CHUNK_SIZE + local.y) as usize].is_none()
    } else {
        !context.chunk_queue.contains_target(new_pos)
    }
}

/// Checks if a particle can move to `new_pos` by interacting with the
/// occupant there; false for an empty target.
pub fn validate_move_interaction(
    context: &SimulationContext,
    table: &InteractionTable,
    new_cells: &Vec<Option<Particle>>,
    new_pos: GridPos,
    particle: Particle,
) -> (r: bool)
    requires
        context.wf(),
        new_cells@.len() == 1024,
    ensures
        r == inter_ok(context.env(table@, new_cells@), new_pos, particle),
{
    if !context.map.within_bounds(new_pos) {
        return false;
    }
    let target_particle = match context.map.get_particle_at(new_pos) {
        Some(t) => t,
        None => {
            return false;
        },
    };
    if !table.contains(particle, target_particle) {
        return false;
    }
    if context.original_chunk.is_within_chunk(new_pos) {
        let local = world_to_local(new_pos);
        match new_cells[(local.x * CHUNK_SIZE + local.y) as usize] {
            Some(new_target) => table.contains(particle, new_target),
            None => false,
        }
    } else {
        !context.chunk_queue.contains_target(new_pos)
    }
}

/// Looks up the interaction rule for the occupant of `pos` and returns
/// its result; callable only where an interaction was validated.
fn interaction_result_at(
    context: &SimulationContext,
    table: &InteractionTable,
    pos: GridPos,
    particle: Particle,
) -> (r: Particle)
    requires
        context.wf(),
        context.map@.valid_pos(pos),
        match context.map@.get(pos) {
            Some(target) => lookup_spec(table@, particle, target) is Some,
            None => false,
        },
    ensures
        forall|nc: Seq<Option<Particle>>|
            r == inter_result(#[trigger] context.env(table@, nc), pos, particle),
{
    let target = match context.map.get_particle_at(pos) {
        Some(t) => t,
        None => {
            proof {
                assert(false);
            }
            particle
        },
    };
    match table.lookup(particle, target) {
        Some(rule) => rule.result,
        None => {
            proof {
                assert(false);
            }
            particle
        },
    }
}

/// Handles the result of a step: a destination inside the chunk is written
/// into the new cell state, one outside is turned into a queued move.
pub fn handle_particle_movement(
    original_chunk: &Chunk,
    new_cells: &mut Vec<Option<Particle>>,
    source_pos: GridPos,
    new_pos: GridPos,
    particle: Particle,
) -> (r: Option<ParticleMove>)
    requires
        original_chunk@.wf(),
        old(new_cells)@.len() == 1024,
    ensures
        final(new_cells)@.len() == 1024,
        !within_chunk_spec(original_chunk@, new_pos) ==> {
            &&& r == Some(
                ParticleMove { source_pos, target_pos: new_pos, particle },
            )
            &&& final(new_cells)@ == old(new_cells)@
        },
        within_chunk_spec(original_chunk@, new_pos) ==> {
            &&& r is None
            &&& final(new_cells)@ == old(new_cells)@.update(local_index(new_pos), Some(particle))
        },
{
    if !original_chunk.is_within_chunk(new_pos) {
        Some(ParticleMove { source_pos, target_pos: new_pos, particle })
    } else {
        let local = world_to_local(new_pos);
        new_cells.set((local.x * CHUNK_SIZE + local.y) as usize, Some(particle));
        None
    }
}

/// The stateless simulator for liquid particles.
pub struct FluidSimulator;

impl FluidSimulator {
    /// Calculates the new position of a fluid particle, in world
    /// coordinates; the inputs `x` and `y` are world coordinates too. The
    /// result is exactly one outcome the step relation allows.
    pub fn calculate_step(
        &self,
        context: &SimulationContext,
        table: &InteractionTable,
        new_cells: &Vec<Option<Particle>>,
        fluid: Liquid,
        x: u32,
        y: u32,
    ) -> (r: (GridPos, Particle))
        requires
            context.wf(),
            new_cells@.len() == 1024,
            x <= 0x4000_0000,
            y <= 0x4000_0000,
        ensures
            step_ok(context.env(table@, new_cells@), fluid, x, y, r),
    {
        let ghost env = context.env(table@, new_cells@);
        let buoyancy = fluid.get_buoyancy();
        let viscosity = fluid.get_viscosity();

        // Vertical scan, farthest offset first.
        let mut off: i32 = viscosity;
        while off >= 0
            invariant
                context.wf(),
                new_cells@.len() == 1024,
                x <= 0x4000_0000,
                y <= 0x4000_0000,
                env == context.env(table@, new_cells@),
                buoyancy == -1,
                viscosity == viscosity_of(fluid),
                -1 <= off <= viscosity,
                forall|o2: int| off < o2 <= viscosity ==> !(#[trigger] vhit(env, fluid, x, y, o2)),
            decreases off + 1,
        {
            let t = y as i64 + (buoyancy as i64) * (off as i64);
            let new_y: u32 = if t < 0 {
                0
            } else {
                t as u32
            };
            let new_pos = GridPos { x, y: new_y };
            proof {
                assert(new_pos == vert_pos(x, y, off as int));
            }
            if validate_move_empty(context, new_cells, new_pos) {
                proof {
                    assert(empty_ok(env, new_pos));
                    assert(vhit(env, fluid, x, y, off as int));
                    assert(vert_out_ok(env, fluid, x, y, off as int, (new_pos, Particle::Liquid(
                        fluid,
                    ))));
                }
                return (new_pos, Particle::Liquid(fluid));
            } else if validate_move_interaction(context, table, new_cells, new_pos, Particle::Liquid(fluid)) {
                let result = interaction_result_at(context, table, new_pos, Particle::Liquid(fluid));
                proof {
                    assert(inter_ok(env, new_pos, Particle::Liquid(fluid)));
                    assert(!empty_ok(env, new_pos));
                    assert(vhit(env, fluid, x, y, off as int));
                    assert(vert_out_ok(env, fluid, x, y, off as int, (new_pos, result)));
                }
                return (new_pos, result);
            }
            off -= 1;
        }

        // Diagonal scan, farthest offset first, one step down.
        let mut off: i32 = viscosity;
        while off >= 0
            invariant
                context.wf(),
                new_cells@.len() == 1024,
                x <= 0x4000_0000,
                y <= 0x4000_0000,
                env == context.env(table@, new_cells@),
                buoyancy == -1,
                viscosity == viscosity_of(fluid),
                -1 <= off <= viscosity,
                forall|o2: int| 0 <= o2 <= viscosity ==> !(#[trigger] vhit(env, fluid, x, y, o2)),
                forall|o2: int| off < o2 <= viscosity ==> !(#[trigger] dhit(env, fluid, x, y, o2)),
            decreases off + 1,
        {
            let down = y as i64 + buoyancy as i64;
            let new_y: u32 = if down < 0 {
                0
            } else {
                down as u32
            };
            let tr = x as i64 + (off as i64) * (buoyancy as i64);
            let new_x_right: u32 = if tr < 0 {
                0
            } else {
                tr as u32
            };
            let tl = x as i64 - (off as i64) * (buoyancy as i64);
            let new_x_left: u32 = tl as u32;
            let new_pos_right = GridPos { x: new_x_right, y: new_y };
            let new_pos_left = GridPos { x: new_x_left, y: new_y };
            proof {
                assert(new_pos_right == diag_pos_r(x, y, off as int));
                assert(new_pos_left == diag_pos_l(x, y, off as int));
            }
            let p = Particle::Liquid(fluid);

            let right_empty = validate_move_empty(context, new_cells, new_pos_right);
            let left_empty = validate_move_empty(context, new_cells, new_pos_left);
            if right_empty && left_empty {
                // Both sides open: pick one uniformly at random to avoid
                // directional bias in symmetric basins.
                let random_direction = crate::rng::rand_range_u32(0, 2);
                proof {
                    assert(dhit(env, fluid, x, y, off as int));
                    assert(diag_out_ok(env, fluid, x, y, off as int, (new_pos_right, p)));
                    assert(diag_out_ok(env, fluid, x, y, off as int, (new_pos_left, p)));
                }
                if random_direction == 0 {
                    return (new_pos_right, p);
                } else {
                    return (new_pos_left, p);
                }
            }
            let right_inter = validate_move_interaction(context, table, new_cells, new_pos_right, p);
            let left_inter = validate_move_interaction(context, table, new_cells, new_pos_left, p);
            if right_inter && left_inter {
                let random_direction = crate::rng::rand_range_u32(0, 2);
                proof {
                    assert(dhit(env, fluid, x, y, off as int));
                }
                if random_direction == 0 {
                    let result = interaction_result_at(context, table, new_pos_right, p);
                    proof {
                        assert(diag_out_ok(env, fluid, x, y, off as int, (new_pos_right, result)));
                    }
                    return (new_pos_right, result);
                } else {
                    let result = interaction_result_at(context, table, new_pos_left, p);
                    proof {
                        assert(diag_out_ok(env, fluid, x, y, off as int, (new_pos_left, result)));
                    }
                    return (new_pos_left, result);
                }
            }
            if right_empty {
                proof {
                    assert(dhit(env, fluid, x, y, off as int));
                    assert(diag_out_ok(env, fluid, x, y, off as int, (new_pos_right, p)));
                }
                return (new_pos_right, p);
            } else if right_inter {
                let result = interaction_result_at(context, table, new_pos_right, p);
                proof {
                    assert(dhit(env, fluid, x, y, off as int));
                    assert(diag_out_ok(env, fluid, x, y, off as int, (new_pos_right, result)));
                }
                return (new_pos_right, result);
            } else if left_empty {
                proof {
                    assert(dhit(env, fluid, x, y, off as int));
                    assert(diag_out_ok(env, fluid, x, y, off as int, (new_pos_left, p)));
                }
                return (new_pos_left, p);
            } else if left_inter {
                let result = interaction_result_at(context, table, new_pos_left, p);
                proof {
                    assert(dhit(env, fluid, x, y, off as int));
                    assert(diag_out_ok(env, fluid, x, y, off as int, (new_pos_left, result)));
                }
                return (new_pos_left, result);
            }
            off -= 1;
        }

        // Horizontal creep in the stored bias direction.
        let step = fluid.get_direction().as_int();
        let th = x as i64 + step as i64;
        let new_x: u32 = if th < 0 {
            0
        } else {
            th as u32
        };
        let h = GridPos { x: new_x, y };
        let p = Particle::Liquid(fluid);
        proof {
            assert(h == (GridPos { x: clamp0(x + dir_step(direction_of(fluid))) as u32, y }));
        }
        if validate_move_empty(context, new_cells, h) {
            proof {
                assert(horiz_out_ok(env, fluid, x, y, (h, p)));
            }
            return (h, p);
        } else if validate_move_interaction(context, table, new_cells, h, p) {
            let result = interaction_result_at(context, table, h, p);
            proof {
                assert(horiz_out_ok(env, fluid, x, y, (h, result)));
            }
            return (h, result);
        }

        // Blocked on every side: flip the stored direction and stay.
        (GridPos { x, y }, Particle::Liquid(fluid.get_flipped_direction()))
    }

    /// Runs one step for the liquid at local cell `(x, y)` of the chunk:
    /// the outcome is written into the new cell state (same chunk) or
    /// returned as a queued move (other chunk).
    pub fn simulate(
        &mut self,
        context: &SimulationContext,
        table: &InteractionTable,
        new_cells: &mut Vec<Option<Particle>>,
        fluid: Liquid,
        x: u32,
        y: u32,
    ) -> (r: Option<ParticleMove>)
        requires
            context.wf(),
            old(new_cells)@.len() == 1024,
            x < CHUNK_SIZE,
            y < CHUNK_SIZE,
        ensures
            final(new_cells)@.len() == 1024,
            exists|out: (GridPos, Particle)|
                {
                    &&& #[trigger] step_ok(
                        context.env(table@, old(new_cells)@),
                        fluid,
                        world_cell(context.original_chunk@, x, y).x,
                        world_cell(context.original_chunk@, x, y).y,
                        out,
                    )
                    &&& sim_effect_ok(
                        context.original_chunk@,
                        world_cell(context.original_chunk@, x, y),
                        out,
                        r,
                        old(new_cells)@,
                        final(new_cells)@,
                    )
                },
    {
        let particle_world_pos = crate::coords::chunk_local_to_world(
            context.original_chunk.position,
            GridPos { x, y },
        );
        let (new_pos, new_particle) = self.calculate_step(
            context,
            table,
            new_cells,
            fluid,
            particle_world_pos.x,
            particle_world_pos.y,
        );
        let r = handle_particle_movement(
            context.original_chunk,
            new_cells,
            particle_world_pos,
            new_pos,
            new_particle,
        );
        proof {
            let out = (new_pos, new_particle);
            assert(particle_world_pos == world_cell(context.original_chunk@, x, y));
            assert(step_ok(context.env(table@, old(new_cells)@), fluid, particle_world_pos.x,
                particle_world_pos.y, out));
            assert(sim_effect_ok(context.original_chunk@, particle_world_pos, out, r, old(
                new_cells)@, new_cells@));
        }
        r
    }
}


/// Every outcome the step relation allows either lands on a cell that was
/// validated empty or interacting, or is the flip-in-place outcome at the
/// liquid's own cell.
pub proof fn lemma_step_outcome(env: StepEnv, f: Liquid, x: u32, y: u32, out: (GridPos, Particle))
    requires
        step_ok(env, f, x, y, out),
    ensures
        empty_ok(env, out.0) || inter_ok(env, out.0, Particle::Liquid(f)) || out == (
            GridPos { x, y },
            Particle::Liquid(with_direction(f, opposite_dir(direction_of(f)))),
        ),
{
    let v = viscosity_of(f) as int;
    if exists|o: int| 0 <= o <= v && #[trigger] vhit(env, f, x, y, o) {
        let o = choose|o: int|
            {
                &&& 0 <= o <= v
                &&& #[trigger] vhit(env, f, x, y, o)
                &&& forall|o2: int| o < o2 <= v ==> !(#[trigger] vhit(env, f, x, y, o2))
                &&& vert_out_ok(env, f, x, y, o, out)
            };
        let pos = vert_pos(x, y, o);
        if empty_ok(env, pos) {
            assert(out.0 == pos);
        } else {
            assert(inter_ok(env, pos, Particle::Liquid(f)));
            assert(out.0 == pos);
        }
    } else if exists|o: int| 0 <= o <= v && #[trigger] dhit(env, f, x, y, o) {
        let o = choose|o: int|
            {
                &&& 0 <= o <= v
                &&& #[trigger] dhit(env, f, x, y, o)
                &&& forall|o2: int| o < o2 <= v ==> !(#[trigger] dhit(env, f, x, y, o2))
                &&& diag_out_ok(env, f, x, y, o, out)
            };
        let r = diag_pos_r(x, y, o);
        let l = diag_pos_l(x, y, o);
        let p = Particle::Liquid(f);
        if empty_ok(env, r) && empty_ok(env, l) {
        } else if inter_ok(env, r, p) && inter_ok(env, l, p) {
        } else if empty_ok(env, r) {
        } else if inter_ok(env, r, p) {
        } else if empty_ok(env, l) {
        } else {
            assert(inter_ok(env, l, p));
        }
    } else {
        let h = GridPos { x: clamp0(x + dir_step(direction_of(f))) as u32, y };
        let p = Particle::Liquid(f);
        if empty_ok(env, h) {
        } else if inter_ok(env, h, p) {
        }
    }
}

/// A liquid with the cell directly below it free never stays put: every
/// outcome the step relation allows lies strictly below it. At the floor
/// this is vacuous, since no cell lies below row zero.
pub proof fn lemma_open_cell_below_moves_down(
    env: StepEnv,
    f: Liquid,
    x: u32,
    y: u32,
    out: (GridPos, Particle),
)
    requires
        y > 0,
        empty_ok(env, vert_pos(x, y, 1)),
        step_ok(env, f, x, y, out),
    ensures
        out.0.y < y,
{
    let v = viscosity_of(f) as int;
    assert(1 <= v) by {
        match f {
            Liquid::Water(_) => {},
            Liquid::Lava(_) => {},
            Liquid::Acid(_) => {},
        }
    }
    assert(vhit(env, f, x, y, 1));
    let o = choose|o: int|
        {
            &&& 0 <= o <= v
            &&& #[trigger] vhit(env, f, x, y, o)
            &&& forall|o2: int| o < o2 <= v ==> !(#[trigger] vhit(env, f, x, y, o2))
            &&& vert_out_ok(env, f, x, y, o, out)
        };
    if o < 1 {
        assert(!vhit(env, f, x, y, 1));
        assert(false);
    }
    assert(out.0 == vert_pos(x, y, o));
}

/// A lone liquid over a clear column falls as far as its viscosity
/// reaches in a single step: if the cell `viscosity` below (clipped at the
/// floor) is open, every outcome the step relation allows is exactly that
/// cell, with the liquid unchanged. In particular a liquid with an empty
/// column of height at least its viscosity below it falls exactly
/// `viscosity` cells, and one nearer the floor lands on the floor.
pub proof fn lemma_clear_column_falls_farthest(
    env: StepEnv,
    f: Liquid,
    x: u32,
    y: u32,
    out: (GridPos, Particle),
)
    requires
        empty_ok(env, vert_pos(x, y, viscosity_of(f) as int)),
        step_ok(env, f, x, y, out),
    ensures
        out == (vert_pos(x, y, viscosity_of(f) as int), Particle::Liquid(f)),
{
    let v = viscosity_of(f) as int;
    assert(vhit(env, f, x, y, v));
    let o = choose|o: int|
        {
            &&& 0 <= o <= v
            &&& #[trigger] vhit(env, f, x, y, o)
            &&& forall|o2: int| o < o2 <= v ==> !(#[trigger] vhit(env, f, x, y, o2))
            &&& vert_out_ok(env, f, x, y, o, out)
        };
    if o < v {
        assert(!vhit(env, f, x, y, v));
        assert(false);
    }
}

} // verus!
