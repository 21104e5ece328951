use cavernborn::coords::{bresenham_line, chunk_local_to_world, world_to_chunk, world_to_local, GridPos};

#[test]
fn world_chunk_local_conversions_roundtrip() {
    let world = GridPos::new(70, 33);
    let chunk = world_to_chunk(world);
    let local = world_to_local(world);
    assert_eq!(chunk, GridPos::new(2, 1));
    assert_eq!(local, GridPos::new(6, 1));
    assert_eq!(chunk_local_to_world(chunk, local), world);
}

#[test]
fn conversion_edges_at_chunk_boundaries() {
    assert_eq!(world_to_chunk(GridPos::new(31, 32)), GridPos::new(0, 1));
    assert_eq!(world_to_local(GridPos::new(31, 32)), GridPos::new(31, 0));
    assert_eq!(world_to_chunk(GridPos::new(0, 0)), GridPos::new(0, 0));
}

fn assert_line(start: GridPos, end: GridPos) {
    let points = bresenham_line(start, end);
    assert!(!points.is_empty());
    assert_eq!(points[0], start);
    assert_eq!(*points.last().unwrap(), end);
    for pair in points.windows(2) {
        let dx = (pair[0].x as i64 - pair[1].x as i64).abs();
        let dy = (pair[0].y as i64 - pair[1].y as i64).abs();
        assert!(dx <= 1 && dy <= 1, "non-adjacent step {:?} -> {:?}", pair[0], pair[1]);
        assert!(dx + dy >= 1, "stalled step at {:?}", pair[0]);
    }
}

#[test]
fn bresenham_lines_walk_from_start_to_end() {
    assert_line(GridPos::new(0, 0), GridPos::new(0, 0));
    assert_line(GridPos::new(0, 0), GridPos::new(5, 3));
    assert_line(GridPos::new(5, 3), GridPos::new(0, 0));
    assert_line(GridPos::new(2, 9), GridPos::new(9, 2));
    assert_line(GridPos::new(4, 4), GridPos::new(4, 12));
    assert_line(GridPos::new(12, 4), GridPos::new(4, 4));
}

#[test]
fn bresenham_diagonal_is_exactly_the_diagonal() {
    let points = bresenham_line(GridPos::new(0, 0), GridPos::new(3, 3));
    assert_eq!(
        points,
        vec![GridPos::new(0, 0), GridPos::new(1, 1), GridPos::new(2, 2), GridPos::new(3, 3)]
    );
}
