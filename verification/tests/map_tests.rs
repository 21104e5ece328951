use cavernborn::coords::GridPos;
use cavernborn::interaction::InteractionTable;
use cavernborn::particle::{Common, Direction, Gem, Liquid, Ore, Particle, Special};
use cavernborn::world::{chunk_count_height, chunk_count_width, WorldMap};

fn water() -> Particle {
    Particle::Liquid(Liquid::Water(Direction::Still))
}

fn stone() -> Particle {
    Particle::Common(Common::Stone)
}

/// Counts every occupied cell of the map.
fn total_particles(map: &WorldMap) -> u32 {
    let mut count = 0;
    for x in 0..map.width {
        for y in 0..map.height {
            if map.get_particle_at(GridPos::new(x, y)).is_some() {
                count += 1;
            }
        }
    }
    count
}

#[test]
fn chunk_counts_round_up() {
    assert_eq!(chunk_count_width(32), 1);
    assert_eq!(chunk_count_width(33), 2);
    assert_eq!(chunk_count_width(64), 2);
    assert_eq!(chunk_count_height(1), 1);
    assert_eq!(chunk_count_height(65), 3);
}

#[test]
fn empty_world_has_no_particles_and_no_active_chunks() {
    let map = WorldMap::empty(64, 64);
    assert_eq!(map.width, 64);
    assert_eq!(map.height, 64);
    assert!(map.active_chunks.is_empty());
    assert_eq!(total_particles(&map), 0);
}

#[test]
fn set_and_get_particle_at_cross_chunk_coordinates() {
    let mut map = WorldMap::empty(64, 64);
    map.set_particle_at(GridPos::new(40, 50), Some(stone()));
    assert_eq!(map.get_particle_at(GridPos::new(40, 50)), Some(stone()));
    assert_eq!(map.get_particle_at(GridPos::new(40, 51)), None);
    assert!(map.get_chunk_at(&GridPos::new(1, 1)).dirty);
    assert!(!map.get_chunk_at(&GridPos::new(0, 0)).dirty);
    // An out-of-bounds write is a no-op.
    map.set_particle_at(GridPos::new(64, 0), Some(stone()));
    assert_eq!(total_particles(&map), 1);
}

#[test]
fn valid_positions_are_in_bounds_and_empty() {
    let mut map = WorldMap::empty(64, 64);
    map.set_particle_at(GridPos::new(10, 10), Some(stone()));
    assert!(map.is_valid_position(GridPos::new(0, 0)));
    assert!(!map.is_valid_position(GridPos::new(10, 10)));
    assert!(!map.is_valid_position(GridPos::new(64, 0)));
    assert!(!map.is_valid_position(GridPos::new(0, 200)));
}

#[test]
fn chunks_near_uses_squared_chunk_distance() {
    let map = WorldMap::empty(64, 64);
    let near = map.get_chunks_near(GridPos::new(0, 0), 32);
    assert!(near.contains(&GridPos::new(0, 0)));
    assert!(near.contains(&GridPos::new(1, 0)));
    assert!(near.contains(&GridPos::new(0, 1)));
    assert!(!near.contains(&GridPos::new(1, 1)), "distance squared 2 exceeds range 1");
    assert_eq!(near.len(), 3);
}

#[test]
fn active_region_is_clipped_to_the_chunk_grid() {
    let mut map = WorldMap::empty(64, 64);
    map.update_active_chunks(GridPos::new(0, 0));
    // The whole 2x2 grid lies within the active range.
    assert_eq!(map.active_chunks.len(), 4);
    for cx in 0..2 {
        for cy in 0..2 {
            assert!(map.active_chunks.contains(&GridPos::new(cx, cy)));
        }
    }
}

#[test]
fn active_region_refreshes_dirty_chunks() {
    let mut map = WorldMap::empty(64, 64);
    map.set_particle_at(GridPos::new(5, 5), Some(water()));
    assert!(map.get_chunk_at(&GridPos::new(0, 0)).dirty);
    map.update_active_chunks(GridPos::new(0, 0));
    let chunk = map.get_chunk_at(&GridPos::new(0, 0));
    assert!(!chunk.dirty);
    assert!(chunk.should_simulate);
}

#[test]
fn cross_chunk_fall_conserves_the_particle() {
    // One chunk wide, two chunks tall; water just above the chunk seam
    // falls into the lower chunk through the move queue.
    let mut map = WorldMap::empty(32, 64);
    map.set_particle_at(GridPos::new(5, 33), Some(water()));
    map.update_active_chunks(GridPos::new(0, 0));
    let table = InteractionTable::standard();
    map.simulate_active_chunks(&table);

    assert_eq!(map.get_particle_at(GridPos::new(5, 33)), None);
    assert_eq!(map.get_particle_at(GridPos::new(5, 28)), Some(water()));
    assert_eq!(total_particles(&map), 1, "no particle may vanish or duplicate");
}

#[test]
fn settled_world_keeps_its_cells_across_ticks() {
    // Stones do not move: a tick leaves every cell as it was.
    let mut map = WorldMap::empty(32, 32);
    for x in 0..32 {
        map.set_particle_at(GridPos::new(x, 0), Some(stone()));
    }
    map.update_active_chunks(GridPos::new(0, 0));
    let table = InteractionTable::standard();
    map.simulate_active_chunks(&table);
    for x in 0..32 {
        assert_eq!(map.get_particle_at(GridPos::new(x, 0)), Some(stone()));
    }
    assert_eq!(total_particles(&map), 32);
}

#[test]
fn water_settles_into_a_basin_conserving_mass() {
    // A closed 32x32 chunk with some water dropped in: across several
    // ticks no particle is lost and no cell ever holds two.
    let mut map = WorldMap::empty(32, 32);
    for x in 10..15 {
        map.set_particle_at(GridPos::new(x, 20), Some(water()));
    }
    map.update_active_chunks(GridPos::new(0, 0));
    let table = InteractionTable::standard();
    for _ in 0..10 {
        map.simulate_active_chunks(&table);
        map.update_dirty_chunks();
        assert_eq!(total_particles(&map), 5, "conservation violated");
    }
    // Everything has reached the floor row by now.
    let mut floor_water = 0;
    for x in 0..32 {
        if map.get_particle_at(GridPos::new(x, 0)) == Some(water()) {
            floor_water += 1;
        }
    }
    assert_eq!(floor_water, 5);
}

#[test]
fn roll_special_particle_outcomes_are_depth_eligible() {
    // Depth 0: nothing is eligible, so nothing ever spawns.
    for _ in 0..100 {
        assert_eq!(WorldMap::roll_special_particle(0), None);
    }
    // Depth 50: only gold is eligible.
    for _ in 0..200 {
        match WorldMap::roll_special_particle(50) {
            None => {}
            Some(Particle::Special(s)) => {
                assert_eq!(s, Special::Ore(Ore::Gold));
            }
            Some(other) => panic!("unexpected roll outcome {:?}", other),
        }
    }
}

#[test]
fn select_special_is_an_exact_bucket_walk() {
    // Depth 100: ruby (weight 3) then gold (weight 20), total 23.
    let ruby = Some(Particle::Special(Special::Gem(Gem::Ruby)));
    let gold = Some(Particle::Special(Special::Ore(Ore::Gold)));
    assert_eq!(WorldMap::select_special(100, 23, 0), None);
    assert_eq!(WorldMap::select_special(100, 999, 0), None);
    assert_eq!(WorldMap::select_special(100, 0, 0), ruby);
    assert_eq!(WorldMap::select_special(100, 0, 2), ruby);
    assert_eq!(WorldMap::select_special(100, 0, 3), gold);
    assert_eq!(WorldMap::select_special(100, 22, 22), gold);
    // Depth 50: gold alone, total 20.
    assert_eq!(WorldMap::select_special(50, 19, 5), gold);
    assert_eq!(WorldMap::select_special(50, 20, 5), None);
    // Depth 0: no eligible special at all.
    assert_eq!(WorldMap::select_special(0, 0, 0), None);
}

#[test]
fn active_region_far_from_the_grid_is_empty() {
    let mut map = WorldMap::empty(64, 64);
    map.update_active_chunks(GridPos::new(100000, 100000));
    assert!(map.active_chunks.is_empty());
}
