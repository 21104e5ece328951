use cavernborn::chunk::{Chunk, CHUNK_SIZE};
use cavernborn::coords::GridPos;
use cavernborn::interaction::InteractionTable;
use cavernborn::particle::{Common, Direction, Liquid, Particle, Solid};
use cavernborn::queue::MoveQueue;
use cavernborn::world::WorldMap;

fn water() -> Particle {
    Particle::Liquid(Liquid::Water(Direction::Still))
}

fn stone() -> Particle {
    Particle::Common(Common::Stone)
}

#[test]
fn set_then_get_roundtrips_for_all_valid_coordinates() {
    let mut chunk = Chunk::new(GridPos::new(0, 0));
    for x in 0..CHUNK_SIZE {
        for y in 0..CHUNK_SIZE {
            let pos = GridPos::new(x, y);
            assert_eq!(chunk.get_particle(pos), None);
            chunk.set_particle(pos, Some(stone()));
            assert_eq!(chunk.get_particle(pos), Some(stone()));
        }
    }
}

#[test]
fn out_of_range_lookups_return_none_and_writes_are_noops() {
    let mut chunk = Chunk::new(GridPos::new(0, 0));
    let outside = [
        GridPos::new(CHUNK_SIZE, 0),
        GridPos::new(0, CHUNK_SIZE),
        GridPos::new(CHUNK_SIZE, CHUNK_SIZE),
        GridPos::new(u32::MAX, 5),
    ];
    for pos in outside {
        assert_eq!(chunk.get_particle(pos), None);
        chunk.set_particle(pos, Some(stone()));
        assert_eq!(chunk.get_particle(pos), None);
        assert!(!chunk.dirty, "an out-of-range write must not mark the chunk dirty");
    }
}

#[test]
fn refresh_recomputes_simulation_flag_only_when_dirty() {
    let mut chunk = Chunk::new(GridPos::new(0, 0));
    assert!(!chunk.should_simulate);

    chunk.set_particle(GridPos::new(3, 3), Some(water()));
    assert!(chunk.dirty);
    chunk.trigger_refresh();
    assert!(!chunk.dirty);
    assert!(chunk.should_simulate, "a liquid cell must set should_simulate on refresh");

    chunk.set_particle(GridPos::new(3, 3), None);
    chunk.trigger_refresh();
    assert!(!chunk.should_simulate, "an emptied chunk must clear should_simulate on refresh");

    // A stale flag is kept while the chunk is clean.
    chunk.set_particle(GridPos::new(1, 1), Some(water()));
    chunk.trigger_refresh();
    assert!(chunk.should_simulate);
}

#[test]
fn simulate_without_liquids_is_an_unchanged_clone() {
    let map = WorldMap::empty(32, 32);
    let table = InteractionTable::standard();
    let mut queue = MoveQueue::new();

    let mut chunk = Chunk::new(GridPos::new(0, 0));
    chunk.set_particle(GridPos::new(4, 4), Some(stone()));
    chunk.trigger_refresh();
    assert!(!chunk.should_simulate);

    let cells_before = chunk.cells.clone();
    let dirty_before = chunk.dirty;
    let result = chunk.simulate(&map, &table, &mut queue);

    assert_eq!(result.cells, cells_before);
    assert_eq!(result.dirty, dirty_before);
    assert_eq!(result.position, GridPos::new(0, 0));
    assert_eq!(chunk.cells, cells_before);
    assert_eq!(queue.len(), 0);
}

#[test]
fn spritesheet_snapshot_is_row_major_with_zero_for_empty() {
    let mut chunk = Chunk::new(GridPos::new(0, 0));
    chunk.set_particle(GridPos::new(2, 1), Some(Particle::Solid(Solid::Obsidian)));
    let indices = chunk.to_spritesheet_indices();
    assert_eq!(indices.len(), 1024);
    assert_eq!(indices[(1 * CHUNK_SIZE + 2) as usize], 7);
    assert_eq!(indices[0], 0);
}

#[test]
fn composition_counts_every_occupant_once() {
    let mut chunk = Chunk::new(GridPos::new(0, 0));
    chunk.set_particle(GridPos::new(0, 0), Some(stone()));
    chunk.set_particle(GridPos::new(1, 0), Some(stone()));
    chunk.set_particle(GridPos::new(2, 0), Some(water()));
    let composition = chunk.get_composition();
    assert_eq!(composition.len(), 2);
    for (particle, count) in composition {
        if particle == stone() {
            assert_eq!(count, 2);
        } else if particle == water() {
            assert_eq!(count, 1);
        } else {
            panic!("unexpected particle {:?} in composition", particle);
        }
    }
}

#[test]
fn interaction_pass_transforms_the_cell_below() {
    let table = InteractionTable::standard();
    let mut chunk = Chunk::new(GridPos::new(0, 0));
    // Water directly above lava: the lava cell becomes obsidian.
    chunk.set_particle(GridPos::new(5, 6), Some(water()));
    chunk.set_particle(GridPos::new(5, 5), Some(Particle::Liquid(Liquid::Lava(Direction::Still))));
    chunk.process_interactions(&table);
    assert_eq!(chunk.get_particle(GridPos::new(5, 5)), Some(Particle::Solid(Solid::Obsidian)));
    // The upper cell keeps its occupant: one pass, no cascade.
    assert_eq!(chunk.get_particle(GridPos::new(5, 6)), Some(water()));
}

#[test]
fn interaction_pass_leaves_unrelated_pairs_alone() {
    let table = InteractionTable::standard();
    let mut chunk = Chunk::new(GridPos::new(0, 0));
    chunk.set_particle(GridPos::new(5, 6), Some(stone()));
    chunk.set_particle(GridPos::new(5, 5), Some(stone()));
    chunk.process_interactions(&table);
    assert_eq!(chunk.get_particle(GridPos::new(5, 5)), Some(stone()));
    assert_eq!(chunk.get_particle(GridPos::new(5, 6)), Some(stone()));
}

#[test]
fn composition_of_empty_chunk_is_empty() {
    let chunk = Chunk::new(GridPos::new(0, 0));
    assert_eq!(chunk.get_composition(), vec![]);
}

#[test]
fn composition_of_single_cell() {
    let mut chunk = Chunk::new(GridPos::new(0, 0));
    chunk.set_particle(GridPos::new(0, 0), Some(stone()));
    assert_eq!(chunk.get_composition(), vec![(stone(), 1)]);
}

#[test]
fn composition_merges_liquid_directions() {
    // Direction is simulation state, not identity: waters drifting apart
    // still tally as one kind.
    let mut chunk = Chunk::new(GridPos::new(0, 0));
    chunk.set_particle(GridPos::new(0, 0), Some(Particle::Liquid(Liquid::Water(Direction::Left))));
    chunk.set_particle(GridPos::new(1, 0), Some(Particle::Liquid(Liquid::Water(Direction::Right))));
    chunk.set_particle(GridPos::new(2, 0), Some(Particle::Liquid(Liquid::Lava(Direction::Still))));
    let composition = chunk.get_composition();
    assert_eq!(composition.len(), 2);
    for (particle, count) in composition {
        match particle {
            Particle::Liquid(Liquid::Water(_)) => assert_eq!(count, 2),
            Particle::Liquid(Liquid::Lava(_)) => assert_eq!(count, 1),
            other => panic!("unexpected particle {:?} in composition", other),
        }
    }
}

#[test]
fn composition_of_two_equal_cells() {
    let mut chunk = Chunk::new(GridPos::new(0, 0));
    chunk.set_particle(GridPos::new(0, 0), Some(stone()));
    chunk.set_particle(GridPos::new(1, 0), Some(stone()));
    assert_eq!(chunk.get_composition(), vec![(stone(), 2)]);
}
