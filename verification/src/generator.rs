//! Procedural terrain generation: a per-column surface height drives bulk
//! terrain by depth, a weighted roll scatters specials, and ore spawns
//! grow small veins around their centre.
use vstd::prelude::*;

use crate::chunk::CHUNK_SIZE;
use crate::coords::GridPos;
use crate::particle::{common_contains_depth, Common, Particle, Special, WorldGenType};
use crate::world::{special_eligible, WorldMap, WorldMapView, WORLD_DIM_LIMIT};

verus! {

/// Every occupied cell of a generated world holds bulk terrain or a
/// special; the generator never places liquids or solids.
pub open spec fn only_terrain(v: WorldMapView) -> bool {
    forall|pos: GridPos|
        match #[trigger] v.get(pos) {
            Some(p) => (p matches Particle::Common(_)) || (p matches Particle::Special(_)),
            None => true,
        }
}

/// Every common cell sits at or below its column's surface and its depth
/// lies in that variant's spawn interval.
pub open spec fn commons_at_their_depth(v: WorldMapView, surface: Seq<u32>) -> bool {
    forall|pos: GridPos|
        match #[trigger] v.get(pos) {
            Some(p) => match p {
                Particle::Common(c) => pos.y <= surface[pos.x as int]
                    && common_contains_depth(c, (surface[pos.x as int] - pos.y) as u32),
                _ => true,
            },
            None => true,
        }
}

/// Every cell at or below its column's surface is occupied.
pub open spec fn filled_below_surface(v: WorldMapView, surface: Seq<u32>) -> bool {
    forall|pos: GridPos|
        v.valid_pos(pos) && pos.y <= surface[pos.x as int] ==> (#[trigger] v.get(pos)) is Some
}

/// Every occupied cell is justified by a surface: its own column's, or —
/// for an ore-vein cell spilling sideways — a neighbouring column whose
/// surface is deep enough to have held the vein's centre.
pub open spec fn bounded_by_surface(v: WorldMapView, surface: Seq<u32>) -> bool {
    forall|pos: GridPos|
        (#[trigger] v.get(pos)) is Some ==> {
            ||| pos.y <= surface[pos.x as int]
            ||| (1 <= pos.x && pos.y + 22 <= surface[pos.x as int - 1])
            ||| (pos.x + 1 < v.width && pos.y + 22 <= surface[pos.x as int + 1])
        }
}

/// Generates and returns a single gem particle at the specified position.
pub fn spawn_gem(position: GridPos, particle: Particle) -> (r: Vec<(GridPos, Particle)>)
    ensures
        r@ == seq![(position, particle)],
{
    let mut v: Vec<(GridPos, Particle)> = Vec::new();
    v.push((position, particle));
    proof {
        assert(v@ =~= seq![(position, particle)]);
    }
    v
}

/// Generates a vein: the central ore cell plus a few independently rolled
/// cells from its eight-cell neighbourhood, clipped to the map bounds.
/// The vein holds between one and seven cells, all within bounds, all of
/// the same particle, with the centre first.
pub fn spawn_vein(position: GridPos, particle: Particle, map_width: u32, map_height: u32) -> (r:
    Vec<(GridPos, Particle)>)
    requires
        position.x < map_width,
        position.y < map_height,
        map_width <= WORLD_DIM_LIMIT,
        map_height <= WORLD_DIM_LIMIT,
    ensures
        1 <= r@.len() <= 7,
        r@[0] == (position, particle),
        forall|k: int|
            0 <= k < r@.len() ==> {
                &&& (#[trigger] r@[k]).1 == particle
                &&& r@[k].0.x < map_width
                &&& r@[k].0.y < map_height
                &&& -1 <= r@[k].0.x - position.x <= 1
                &&& -1 <= r@[k].0.y - position.y <= 1
            },
{
    let mut vein_particles: Vec<(GridPos, Particle)> = Vec::new();
    vein_particles.push((position, particle));

    // Between three and six additional attempts.
    let vein_size = crate::rng::rand_range_u32(3, 7);

    let mut attempt: u32 = 0;
    while attempt < vein_size
        invariant
            vein_size <= 6,
            attempt <= vein_size,
            position.x < map_width,
            position.y < map_height,
            map_width <= WORLD_DIM_LIMIT,
            map_height <= WORLD_DIM_LIMIT,
            1 <= vein_particles@.len() <= 1 + attempt,
            vein_particles@[0] == (position, particle),
            forall|k: int|
                0 <= k < vein_particles@.len() ==> {
                    &&& (#[trigger] vein_particles@[k]).1 == particle
                    &&& vein_particles@[k].0.x < map_width
                    &&& vein_particles@[k].0.y < map_height
                    &&& -1 <= vein_particles@[k].0.x - position.x <= 1
                    &&& -1 <= vein_particles@[k].0.y - position.y <= 1
                },
        decreases vein_size - attempt,
    {
        // Random offset between -1 and 1 in both directions.
        let offset_x = crate::rng::rand_range_u32(0, 3) as i32 - 1;
        let offset_y = crate::rng::rand_range_u32(0, 3) as i32 - 1;

        attempt += 1;

        // The centre cell is already placed.
        if offset_x == 0 && offset_y == 0 {
            continue ;
        }

        let new_x = position.x as i64 + offset_x as i64;
        let new_y = position.y as i64 + offset_y as i64;

        // Clip to map bounds.
        if new_x < 0 || new_y < 0 || new_x >= map_width as i64 || new_y >= map_height as i64 {
            continue ;
        }

        let new_position = GridPos { x: new_x as u32, y: new_y as u32 };

        // Seven in ten chance to place each neighbouring ore cell.
        if crate::rng::rand_ratio(7, 10) {
            vein_particles.push((new_position, particle));
        }
    }

    vein_particles
}

/// Places every listed cell, in order, each carrying the particle `p`.
fn place_all(map: &mut WorldMap, particles: &Vec<(GridPos, Particle)>, p: Particle)
    requires
        old(map)@.wf(),
        forall|k: int| 0 <= k < particles@.len() ==> (#[trigger] particles@[k]).1 == p,
    ensures
        final(map)@.wf(),
        final(map)@.width == old(map)@.width,
        final(map)@.height == old(map)@.height,
        final(map)@.active_chunks == old(map)@.active_chunks,
        forall|q: GridPos|
            #[trigger] final(map)@.get(q) == old(map)@.get(q) || (final(map)@.get(q) == Some(p)
                && exists|k: int| 0 <= k < particles@.len() && (#[trigger] particles@[k]).0 == q),
        forall|k: int|
            0 <= k < particles@.len() && old(map)@.valid_pos((#[trigger] particles@[k]).0)
                ==> final(map)@.get(particles@[k].0) == Some(p),
{
    let n = particles.len();
    let mut i: usize = 0;
    while i < n
        invariant
            i <= n,
            n == particles@.len(),
            map@.wf(),
            map@.width == old(map)@.width,
            map@.height == old(map)@.height,
            map@.active_chunks == old(map)@.active_chunks,
            forall|k: int| 0 <= k < particles@.len() ==> (#[trigger] particles@[k]).1 == p,
            forall|q: GridPos|
                #[trigger] map@.get(q) == old(map)@.get(q) || (map@.get(q) == Some(p) && exists|
                k: int| 0 <= k < particles@.len() && (#[trigger] particles@[k]).0 == q),
            forall|k: int|
                0 <= k < i && old(map)@.valid_pos((#[trigger] particles@[k]).0) ==> map@.get(
                    particles@[k].0,
                ) == Some(p),
        decreases n - i,
    {
        let (spawn_pos, particle) = particles[i];
        let ghost prev = map@;
        map.set_particle_at(spawn_pos, Some(particle));
        proof {
            assert(particles@[i as int].1 == p);
            assert forall|q: GridPos| #[trigger] map@.get(q) == prev.get(q) || map@.get(q) == Some(
                p,
            ) && q == spawn_pos by {
                if prev.valid_pos(spawn_pos) {
                    crate::world::lemma_map_set_get(prev, spawn_pos, Some(p), map@, q);
                } else {
                    assert(map@ == prev);
                }
            }
            assert forall|q: GridPos| #[trigger] map@.get(q) == old(map)@.get(q) || (map@.get(q)
                == Some(p) && exists|k: int|
                0 <= k < particles@.len() && (#[trigger] particles@[k]).0 == q) by {
                if map@.get(q) != old(map)@.get(q) {
                    if map@.get(q) == prev.get(q) {
                    } else {
                        assert(particles@[i as int].0 == spawn_pos);
                    }
                }
            }
            assert forall|k: int|
                0 <= k < i + 1 && old(map)@.valid_pos((#[trigger] particles@[k]).0) implies
                map@.get(particles@[k].0) == Some(p) by {
                if prev.valid_pos(spawn_pos) {
                    crate::world::lemma_map_set_get(prev, spawn_pos, Some(p), map@, particles@[k].0);
                } else {
                    assert(map@ == prev);
                }
            }
        }
        i += 1;
    }
}

impl WorldMap {
    /// Creates a world with generated terrain.
    /// - `width`: chunks wide the map should be
    /// - `height`: chunks tall the map should be
    /// - `surface_heights`: the per-column surface height field
    pub fn generate(width: u32, height: u32, surface_heights: &Vec<u32>) -> (r: WorldMap)
        requires
            1 <= width,
            1 <= height,
            width * CHUNK_SIZE <= WORLD_DIM_LIMIT,
            height * CHUNK_SIZE <= WORLD_DIM_LIMIT,
            surface_heights@.len() == width * CHUNK_SIZE,
            forall|i: int| 0 <= i < surface_heights@.len() ==> (#[trigger] surface_heights@[i])
                < u32::MAX,
        ensures
            r@.wf(),
            r@.width == width * CHUNK_SIZE,
            r@.height == height * CHUNK_SIZE,
            r@.active_chunks.len() == 0,
            only_terrain(r@),
            commons_at_their_depth(r@, surface_heights@),
            filled_below_surface(r@, surface_heights@),
            bounded_by_surface(r@, surface_heights@),
    {
        let map_width = width * CHUNK_SIZE;
        let map_height = height * CHUNK_SIZE;
        let ghost surface = surface_heights@;

        let mut map = WorldMap::empty(map_width, map_height);

        let mut x: u32 = 0;
        while x < map_width
            invariant
                x <= map_width,
                map@.wf(),
                map@.width == map_width,
                map@.height == map_height,
                map@.active_chunks.len() == 0,
                map_width == width * CHUNK_SIZE,
                map_height == height * CHUNK_SIZE,
                1 <= map_width <= WORLD_DIM_LIMIT,
                1 <= map_height <= WORLD_DIM_LIMIT,
                surface == surface_heights@,
                surface.len() == map_width,
                forall|i: int| 0 <= i < surface.len() ==> (#[trigger] surface[i]) < u32::MAX,
                only_terrain(map@),
                commons_at_their_depth(map@, surface),
                bounded_by_surface(map@, surface),
                forall|pos: GridPos|
                    map@.valid_pos(pos) && pos.x < x && pos.y <= surface[pos.x as int]
                        ==> (#[trigger] map@.get(pos)) is Some,
            decreases map_width - x,
        {
            let mut y: u32 = 0;
            while y < map_height
                invariant
                    y <= map_height,
                    x < map_width,
                    map@.wf(),
                    map@.width == map_width,
                    map@.height == map_height,
                    map@.active_chunks.len() == 0,
                    map_width == width * CHUNK_SIZE,
                    map_height == height * CHUNK_SIZE,
                    1 <= map_width <= WORLD_DIM_LIMIT,
                    1 <= map_height <= WORLD_DIM_LIMIT,
                    surface == surface_heights@,
                    surface.len() == map_width,
                    forall|i: int| 0 <= i < surface.len() ==> (#[trigger] surface[i]) < u32::MAX,
                    only_terrain(map@),
                    commons_at_their_depth(map@, surface),
                    bounded_by_surface(map@, surface),
                    forall|pos: GridPos|
                        map@.valid_pos(pos) && (pos.x < x || (pos.x == x && pos.y < y)) && pos.y
                            <= surface[pos.x as int] ==> (#[trigger] map@.get(pos)) is Some,
                decreases map_height - y,
            {
                let position = GridPos { x, y };
                let sh = surface_heights[x as usize];
                if y <= sh {
                    let depth = sh - y;
                    let rolled = WorldMap::roll_special_particle(depth);
                    match rolled {
                        Some(Particle::Special(special)) => {
                            let sp = Particle::Special(special);
                            let particles = match special {
                                Special::Ore(_) => spawn_vein(position, sp, map_width, map_height),
                                Special::Gem(_) => spawn_gem(position, sp),
                            };
                            let ghost prev = map@;
                            place_all(&mut map, &particles, sp);
                            proof {
                                assert(special.min_depth_spec() <= depth);
                                assert forall|pos: GridPos|
                                    (#[trigger] map@.get(pos)) is Some implies {
                                    ||| pos.y <= surface[pos.x as int]
                                    ||| (1 <= pos.x && pos.y + 22 <= surface[pos.x as int - 1])
                                    ||| (pos.x + 1 < map@.width && pos.y + 22 <= surface[pos.x
                                        as int + 1])
                                } by {
                                    if map@.get(pos) != prev.get(pos) {
                                        let k = choose|k: int|
                                            0 <= k < particles@.len() && (#[trigger] particles@[
                                            k]).0 == pos;
                                        match special {
                                            Special::Ore(_) => {
                                                assert(23 <= depth);
                                                assert(-1 <= pos.x - x <= 1);
                                                assert(-1 <= pos.y - y <= 1);
                                                if pos.x == x {
                                                    assert(pos.y <= y + 1);
                                                    assert(pos.y <= surface[pos.x as int]);
                                                } else if pos.x + 1 == x {
                                                    assert(pos.y + 22 <= surface[pos.x as int
                                                        + 1]);
                                                } else {
                                                    assert(pos.x == x + 1);
                                                    assert(pos.y + 22 <= surface[pos.x as int
                                                        - 1]);
                                                }
                                            },
                                            Special::Gem(_) => {
                                                assert(particles@ == seq![(position, sp)]);
                                                assert(pos == position);
                                            },
                                        }
                                    }
                                }
                                assert forall|pos: GridPos|
                                    map@.valid_pos(pos) && (pos.x < x || (pos.x == x && pos.y < y
                                        + 1)) && pos.y <= surface[pos.x as int] implies (
                                    #[trigger] map@.get(pos)) is Some by {
                                    if pos == position {
                                        assert(particles@[0].0 == position);
                                        assert(map@.get(position) == Some(sp));
                                    } else if prev.get(pos) is Some {
                                        assert(map@.get(pos) == prev.get(pos) || map@.get(pos)
                                            == Some(sp));
                                    }
                                }
                            }
                        },
                        _ => {
                            if map.get_particle_at(position).is_none() {
                                let common = Common::get_exclusive_at_depth(depth);
                                let ghost prev = map@;
                                map.set_particle_at(position, Some(Particle::Common(common)));
                                proof {
                                    assert forall|q: GridPos|
                                        #[trigger] map@.get(q) == (if q == position {
                                            Some(Particle::Common(common))
                                        } else {
                                            prev.get(q)
                                        }) by {
                                        crate::world::lemma_map_set_get(
                                            prev,
                                            position,
                                            Some(Particle::Common(common)),
                                            map@,
                                            q,
                                        );
                                    }
                                }
                            }
                        },
                    }
                }
                y += 1;
            }
            x += 1;
        }
        map
    }

    /// Creates a world entirely filled with still water.
    /// - `width`: chunks wide the map should be
    /// - `height`: chunks tall the map should be
    pub fn generate_water_world(width: u32, height: u32) -> (r: WorldMap)
        requires
            1 <= width,
            1 <= height,
            width * CHUNK_SIZE <= WORLD_DIM_LIMIT,
            height * CHUNK_SIZE <= WORLD_DIM_LIMIT,
        ensures
            r@.wf(),
            r@.width == width * CHUNK_SIZE,
            r@.height == height * CHUNK_SIZE,
            forall|pos: GridPos|
                r@.valid_pos(pos) ==> #[trigger] r@.get(pos) == Some(
                    Particle::Liquid(crate::particle::Liquid::Water(crate::particle::Direction::Left)),
                ),
    {
        let map_width = width * CHUNK_SIZE;
        let map_height = height * CHUNK_SIZE;
        let water = Particle::Liquid(crate::particle::Liquid::Water(crate::particle::Direction::Left));

        let mut map = WorldMap::empty(map_width, map_height);

        let mut x: u32 = 0;
        while x < map_width
            invariant
                x <= map_width,
                map@.wf(),
                map@.width == map_width,
                map@.height == map_height,
                1 <= map_width <= WORLD_DIM_LIMIT,
                1 <= map_height <= WORLD_DIM_LIMIT,
                forall|pos: GridPos|
                    map@.valid_pos(pos) && pos.x < x ==> #[trigger] map@.get(pos) == Some(water),
            decreases map_width - x,
        {
            let mut y: u32 = 0;
            while y < map_height
                invariant
                    y <= map_height,
                    x < map_width,
                    map@.wf(),
                    map@.width == map_width,
                    map@.height == map_height,
                    1 <= map_width <= WORLD_DIM_LIMIT,
                    1 <= map_height <= WORLD_DIM_LIMIT,
                    forall|pos: GridPos|
                        map@.valid_pos(pos) && (pos.x < x || (pos.x == x && pos.y < y))
                            ==> #[trigger] map@.get(pos) == Some(water),
                decreases map_height - y,
            {
                let position = GridPos { x, y };
                let ghost prev = map@;
                map.set_particle_at(position, Some(water));
                proof {
                    assert forall|q: GridPos| #[trigger] map@.get(q) == (if q == position {
                        Some(water)
                    } else {
                        prev.get(q)
                    }) by {
                        crate::world::lemma_map_set_get(prev, position, Some(water), map@, q);
                    }
                }
                y += 1;
            }
            x += 1;
        }
        map
    }
}


/// In a generated world whose surface is everywhere at stone depth, the
/// bottom row of every column holds stone-class terrain: the deepest
/// common variant, or a special that lawfully spawned at that depth.
pub proof fn lemma_bottom_row_is_stone_class(v: WorldMapView, surface: Seq<u32>, x: u32)
    requires
        only_terrain(v),
        commons_at_their_depth(v, surface),
        filled_below_surface(v, surface),
        x < v.width,
        0 < v.height,
        x < surface.len(),
        12 <= surface[x as int],
    ensures
        v.get(GridPos { x, y: 0 }) is Some,
        match v.get(GridPos { x, y: 0 }) {
            Some(p) => match p {
                Particle::Common(c) => c == Common::Stone,
                Particle::Special(_) => true,
                _ => false,
            },
            None => false,
        },
{
    let pos = GridPos { x, y: 0 };
    assert(v.valid_pos(pos) && pos.y <= surface[pos.x as int]);
    assert(v.get(pos) is Some);
    match v.get(pos) {
        Some(p) => {
            match p {
                Particle::Common(c) => {
                    assert(common_contains_depth(c, (surface[pos.x as int] - 0) as u32));
                },
                _ => {},
            }
        },
        None => {},
    }
}

} // verus!
