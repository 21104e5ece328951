use cavernborn::chunk::ParticleMove;
use cavernborn::coords::GridPos;
use cavernborn::particle::{Common, Particle};
use cavernborn::queue::MoveQueue;

fn mv(sx: u32, sy: u32, tx: u32, ty: u32) -> ParticleMove {
    ParticleMove {
        source_pos: GridPos::new(sx, sy),
        target_pos: GridPos::new(tx, ty),
        particle: Particle::Common(Common::Stone),
    }
}

#[test]
fn queue_tracks_targets() {
    let mut queue = MoveQueue::new();
    assert_eq!(queue.len(), 0);
    assert!(!queue.contains_target(GridPos::new(1, 2)));
    queue.insert(mv(0, 0, 1, 2));
    assert_eq!(queue.len(), 1);
    assert!(queue.contains_target(GridPos::new(1, 2)));
    assert!(!queue.contains_target(GridPos::new(2, 1)));
}

#[test]
fn queue_is_sorted_by_target_row_then_column() {
    let mut queue = MoveQueue::new();
    queue.insert(mv(0, 0, 9, 5));
    queue.insert(mv(0, 0, 1, 2));
    queue.insert(mv(0, 0, 3, 2));
    queue.insert(mv(0, 0, 0, 7));
    let targets: Vec<(u32, u32)> =
        queue.moves.iter().map(|m| (m.target_pos.y, m.target_pos.x)).collect();
    assert_eq!(targets, vec![(2, 1), (2, 3), (5, 9), (7, 0)]);
}

#[test]
fn closer_move_wins_a_contested_target() {
    let mut queue = MoveQueue::new();
    // Distance 4 first, then distance 2 for the same target.
    queue.insert(mv(10, 10, 12, 12));
    queue.insert(mv(11, 11, 12, 12));
    assert_eq!(queue.len(), 1);
    assert_eq!(queue.moves[0].source_pos, GridPos::new(11, 11));
}

#[test]
fn earlier_move_keeps_a_tied_or_farther_contest() {
    let mut queue = MoveQueue::new();
    queue.insert(mv(11, 11, 12, 12));
    // Same distance: the earlier move stays.
    queue.insert(mv(13, 13, 12, 12));
    assert_eq!(queue.len(), 1);
    assert_eq!(queue.moves[0].source_pos, GridPos::new(11, 11));
    // Farther: the earlier move stays.
    queue.insert(mv(12, 8, 12, 12));
    assert_eq!(queue.len(), 1);
    assert_eq!(queue.moves[0].source_pos, GridPos::new(11, 11));
}
