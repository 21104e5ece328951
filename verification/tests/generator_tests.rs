use cavernborn::coords::GridPos;
use cavernborn::generator::{spawn_gem, spawn_vein};
use cavernborn::particle::{Gem, Ore};
use cavernborn::particle::{Common, Particle, Special, WorldGenType};
use cavernborn::world::WorldMap;

/// The per-column surface heights the shipped world uses: a terrain base
/// at 95% of the map height plus a bounded sine wave.
fn surface_heights(map_width: u32, map_height: u32) -> Vec<u32> {
    (0..map_width)
        .map(|x| {
            let base_height = (map_height as f32 * 0.95) as u32;
            let height_variation = (x as f32 * 0.05).sin() * 10.0;
            base_height + height_variation as u32
        })
        .collect()
}

#[test]
fn veins_hold_one_to_seven_adjacent_in_bounds_cells() {
    let gold = Particle::Special(Special::Ore(Ore::Gold));
    for _ in 0..200 {
        let center = GridPos::new(10, 10);
        let vein = spawn_vein(center, gold, 64, 64);
        assert!(vein.len() >= 1 && vein.len() <= 7, "vein size {} out of range", vein.len());
        assert_eq!(vein[0], (center, gold));
        for (pos, particle) in &vein {
            assert_eq!(*particle, gold);
            assert!(pos.x < 64 && pos.y < 64);
            assert!((pos.x as i64 - 10).abs() <= 1);
            assert!((pos.y as i64 - 10).abs() <= 1);
        }
    }
    // A vein at the map corner stays clipped inside the bounds.
    for _ in 0..50 {
        let vein = spawn_vein(GridPos::new(0, 0), gold, 64, 64);
        for (pos, _) in &vein {
            assert!(pos.x < 64 && pos.y < 64);
        }
    }
}

#[test]
fn spawn_gem_is_a_single_cell() {
    let ruby = Particle::Special(Special::Gem(Gem::Ruby));
    let spawned = spawn_gem(GridPos::new(3, 4), ruby);
    assert_eq!(spawned, vec![(GridPos::new(3, 4), ruby)]);
}

#[test]
fn generated_commons_lie_inside_their_depth_interval() {
    let surface = vec![40u32; 64];
    let map = WorldMap::generate(2, 2, &surface);
    assert_eq!(map.width, 64);
    assert_eq!(map.height, 64);
    for x in 0..64 {
        for y in 0..64 {
            match map.get_particle_at(GridPos::new(x, y)) {
                Some(Particle::Common(c)) => {
                    assert!(y <= 40, "common above the surface at ({}, {})", x, y);
                    let depth = 40 - y;
                    assert!(
                        c.min_depth() <= depth && depth < c.max_depth(),
                        "{:?} at depth {} outside [{}, {})",
                        c,
                        depth,
                        c.min_depth(),
                        c.max_depth()
                    );
                }
                Some(Particle::Special(s)) => {
                    // Specials sit at eligible depths, give or take the
                    // one-cell spread of a vein.
                    assert!(y as i64 <= 40 - s.min_depth() as i64 + 1);
                }
                Some(other) => panic!("generator placed {:?}", other),
                None => {
                    assert!(y > 40, "hole below the surface at ({}, {})", x, y);
                }
            }
        }
    }
}

#[test]
fn flat_world_generation_fills_exactly_below_the_surface() {
    let surface = vec![20u32; 32];
    let map = WorldMap::generate(1, 1, &surface);
    for x in 0..32 {
        for y in 0..32 {
            let occupied = map.get_particle_at(GridPos::new(x, y)).is_some();
            if y <= 20 {
                assert!(occupied, "cell ({}, {}) below the surface is empty", x, y);
            } else {
                assert!(!occupied, "cell ({}, {}) above the surface is filled", x, y);
            }
        }
    }
}

#[test]
fn one_by_two_chunk_world_matches_the_surface_formula() {
    // A 32x64 world: everything above each column's surface is empty and
    // the bottom row holds stone-class terrain (stone, or an ore that
    // lawfully spawned at stone depth).
    let surface = surface_heights(32, 64);
    assert_eq!(surface[0], 60);
    let map = WorldMap::generate(1, 2, &surface);
    assert_eq!(map.width, 32);
    assert_eq!(map.height, 64);

    for x in 0..32u32 {
        let sh = surface[x as usize];
        for y in 0..64u32 {
            let cell = map.get_particle_at(GridPos::new(x, y));
            if y > sh {
                assert_eq!(cell, None, "cell ({}, {}) above surface {} is filled", x, y, sh);
            } else {
                assert!(cell.is_some(), "cell ({}, {}) below surface {} is empty", x, y, sh);
            }
        }
        match map.get_particle_at(GridPos::new(x, 0)) {
            Some(Particle::Common(Common::Stone)) => {}
            Some(Particle::Special(_)) => {}
            other => panic!("bottom of column {} is {:?}, not stone-class", x, other),
        }
    }
}
