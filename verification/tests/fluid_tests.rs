use cavernborn::chunk::Chunk;
use cavernborn::coords::GridPos;
use cavernborn::fluid::{FluidSimulator, SimulationContext};
use cavernborn::interaction::InteractionTable;
use cavernborn::particle::{Common, Direction, Liquid, Particle};
use cavernborn::queue::MoveQueue;
use cavernborn::world::WorldMap;

fn water() -> Particle {
    Particle::Liquid(Liquid::Water(Direction::Still))
}

fn stone() -> Particle {
    Particle::Common(Common::Stone)
}

/// Builds a 32x32 one-chunk world with the given occupied cells, and the
/// matching refreshed chunk clone.
fn one_chunk_world(cells: &[(u32, u32, Particle)]) -> (WorldMap, Chunk) {
    let mut map = WorldMap::empty(32, 32);
    for &(x, y, p) in cells {
        map.set_particle_at(GridPos::new(x, y), Some(p));
    }
    let mut chunk = map.get_chunk_at(&GridPos::new(0, 0)).clone();
    chunk.trigger_refresh();
    (map, chunk)
}

#[test]
fn lone_liquid_falls_exactly_viscosity_cells() {
    // Water with viscosity 5 over an empty column of height 10.
    let (map, mut chunk) = one_chunk_world(&[(5, 10, water())]);
    assert!(chunk.should_simulate);
    let table = InteractionTable::standard();
    let mut queue = MoveQueue::new();
    chunk.simulate(&map, &table, &mut queue);
    assert_eq!(queue.len(), 0);
    assert_eq!(chunk.get_particle(GridPos::new(5, 10)), None);
    assert_eq!(chunk.get_particle(GridPos::new(5, 5)), Some(water()));
}

#[test]
fn liquid_near_the_floor_stops_on_the_floor() {
    // Water at height 2: the clipped scan lands it on the floor.
    let (map, mut chunk) = one_chunk_world(&[(5, 2, water())]);
    let table = InteractionTable::standard();
    let mut queue = MoveQueue::new();
    chunk.simulate(&map, &table, &mut queue);
    assert_eq!(chunk.get_particle(GridPos::new(5, 2)), None);
    assert_eq!(chunk.get_particle(GridPos::new(5, 0)), Some(water()));
}

#[test]
fn water_in_an_empty_chunk_reaches_the_floor_in_one_pass() {
    // From (5,5) with viscosity 5 the whole fall happens in one tick.
    let (map, mut chunk) = one_chunk_world(&[(5, 5, water())]);
    let table = InteractionTable::standard();
    let mut queue = MoveQueue::new();
    chunk.simulate(&map, &table, &mut queue);
    assert_eq!(chunk.get_particle(GridPos::new(5, 5)), None);
    assert_eq!(chunk.get_particle(GridPos::new(5, 0)), Some(water()));
}

#[test]
fn blocked_liquid_flips_its_direction_in_place() {
    // Wall the water in completely: it stays and its bias flips.
    let mut cells = vec![(5u32, 5u32, Particle::Liquid(Liquid::Water(Direction::Left)))];
    for x in 0..32 {
        for y in 0..6 {
            if (x, y) != (5, 5) {
                cells.push((x, y, stone()));
            }
        }
    }
    let (map, mut chunk) = one_chunk_world(&cells);
    let table = InteractionTable::standard();
    let mut queue = MoveQueue::new();
    chunk.simulate(&map, &table, &mut queue);
    assert_eq!(
        chunk.get_particle(GridPos::new(5, 5)),
        Some(Particle::Liquid(Liquid::Water(Direction::Right)))
    );
}

#[test]
fn symmetric_diagonal_choice_is_roughly_even() {
    // Vertical column below the water blocked; only the two diagonal
    // cells (4,4) and (6,4) are open. The choice must be close to 50/50.
    let mut cells = vec![(5u32, 5u32, water())];
    for y in 0..5 {
        cells.push((5, y, stone()));
    }
    for x in 0..32 {
        if x != 4 && x != 6 {
            if !cells.contains(&(x, 4, stone())) {
                cells.push((x, 4, stone()));
            }
        }
    }
    let (map, chunk) = one_chunk_world(&cells);
    let table = InteractionTable::standard();
    let queue = MoveQueue::new();
    let new_cells: Vec<Option<Particle>> = vec![None; 1024];

    let mut left = 0;
    let mut right = 0;
    for _ in 0..1000 {
        let context = SimulationContext::new(&map, &chunk, &queue);
        let (pos, _) = FluidSimulator.calculate_step(
            &context,
            &table,
            &new_cells,
            Liquid::Water(Direction::Still),
            5,
            5,
        );
        if pos == GridPos::new(4, 4) {
            left += 1;
        } else if pos == GridPos::new(6, 4) {
            right += 1;
        } else {
            panic!("unexpected destination {:?}", pos);
        }
    }
    assert!(left >= 400 && left <= 600, "left picked {} of 1000", left);
    assert!(right >= 400 && right <= 600, "right picked {} of 1000", right);
}

#[test]
fn falling_water_onto_lava_fuses_to_obsidian() {
    let lava = Particle::Liquid(Liquid::Lava(Direction::Still));
    // The column below the lava is walled off, so the nearest open scan
    // hit is the interaction with the lava one cell down.
    let (map, chunk) = one_chunk_world(&[
        (5, 5, water()),
        (5, 4, lava),
        (5, 3, stone()),
        (5, 2, stone()),
        (5, 1, stone()),
        (5, 0, stone()),
    ]);
    let table = InteractionTable::standard();
    let queue = MoveQueue::new();
    // Seed the in-progress state with the lava so the in-chunk interaction
    // check sees a partner there.
    let mut new_cells: Vec<Option<Particle>> = vec![None; 1024];
    new_cells[(5 * 32 + 4) as usize] = Some(lava);

    let context = SimulationContext::new(&map, &chunk, &queue);
    let (pos, particle) = FluidSimulator.calculate_step(
        &context,
        &table,
        &new_cells,
        Liquid::Water(Direction::Still),
        5,
        5,
    );
    assert_eq!(pos, GridPos::new(5, 4));
    assert_eq!(particle, Particle::Solid(cavernborn::particle::Solid::Obsidian));
}
