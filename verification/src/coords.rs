//! Grid positions and the conversions between world, chunk and local
//! coordinates.
use vstd::prelude::*;

use crate::chunk::CHUNK_SIZE;

verus! {

/// A non-negative 2D grid position, in world, chunk or local units
/// depending on context.
#[derive(Clone, Copy, PartialEq, Eq, Hash, Debug, Structural)]
pub struct GridPos {
    pub x: u32,
    pub y: u32,
}

impl GridPos {
    /// Builds the position `(x, y)`.
    pub fn new(x: u32, y: u32) -> (r: GridPos)
        ensures
            r == (GridPos { x, y }),
    {
        GridPos { x, y }
    }
}

/// Convert world coordinates (particle units) to chunk coordinates.
pub fn world_to_chunk(world_pos: GridPos) -> (r: GridPos)
    ensures
        r.x == world_pos.x / CHUNK_SIZE,
        r.y == world_pos.y / CHUNK_SIZE,
{
    GridPos { x: world_pos.x / CHUNK_SIZE, y: world_pos.y / CHUNK_SIZE }
}

/// Convert world coordinates to local coordinates within their chunk.
pub fn world_to_local(world_pos: GridPos) -> (r: GridPos)
    ensures
        r.x == world_pos.x % CHUNK_SIZE,
        r.y == world_pos.y % CHUNK_SIZE,
        r.x < CHUNK_SIZE,
        r.y < CHUNK_SIZE,
{
    GridPos { x: world_pos.x % CHUNK_SIZE, y: world_pos.y % CHUNK_SIZE }
}

/// Convert a chunk coordinate and a local offset to world coordinates.
pub fn chunk_local_to_world(chunk_pos: GridPos, local_pos: GridPos) -> (r: GridPos)
    requires
        chunk_pos.x * CHUNK_SIZE + local_pos.x <= u32::MAX,
        chunk_pos.y * CHUNK_SIZE + local_pos.y <= u32::MAX,
    ensures
        r.x == chunk_pos.x * CHUNK_SIZE + local_pos.x,
        r.y == chunk_pos.y * CHUNK_SIZE + local_pos.y,
{
    GridPos { x: chunk_pos.x * CHUNK_SIZE + local_pos.x, y: chunk_pos.y * CHUNK_SIZE + local_pos.y }
}

/// Splitting a world coordinate into chunk and local parts and recombining
/// them gives the coordinate back.
pub proof fn lemma_world_chunk_local_roundtrip(w: u32)
    ensures
        (w / CHUNK_SIZE) * CHUNK_SIZE + (w % CHUNK_SIZE) == w,
{
    assert((w / CHUNK_SIZE) * CHUNK_SIZE + (w % CHUNK_SIZE) == w) by (nonlinear_arith);
}

/// Whether two positions are distinct and at Chebyshev distance one: the
/// relation between consecutive points of a rasterized line.
pub open spec fn unit_step(a: GridPos, b: GridPos) -> bool {
    &&& a != b
    &&& -1 <= b.x - a.x <= 1
    &&& -1 <= b.y - a.y <= 1
}

/// Whether `p` lies in the closed bounding box spanned by `a` and `b`.
pub open spec fn in_box(p: GridPos, a: GridPos, b: GridPos) -> bool {
    &&& (if a.x <= b.x {
        a.x <= p.x <= b.x
    } else {
        b.x <= p.x <= a.x
    })
    &&& (if a.y <= b.y {
        a.y <= p.y <= b.y
    } else {
        b.y <= p.y <= a.y
    })
}

/// Rasterizes the segment from `start` to `end`: the returned points begin
/// at `start`, end at `end`, advance one cell at a time, and stay inside
/// the bounding box of the two endpoints.
#[verifier::rlimit(100)]
pub fn bresenham_line(start: GridPos, end: GridPos) -> (r: Vec<GridPos>)
    requires
        start.x <= 0x2000_0000,
        start.y <= 0x2000_0000,
        end.x <= 0x2000_0000,
        end.y <= 0x2000_0000,
    ensures
        r@.len() >= 1,
        r@[0] == start,
        r@[r@.len() - 1] == end,
        forall|i: int| 0 <= i < r@.len() - 1 ==> #[trigger] unit_step(r@[i], r@[i + 1]),
        forall|i: int| 0 <= i < r@.len() ==> #[trigger] in_box(r@[i], start, end),
{
    let mut points: Vec<GridPos> = Vec::new();

    let x0 = start.x as i32;
    let y0 = start.y as i32;
    let x1 = end.x as i32;
    let y1 = end.y as i32;

    let dx = if x1 >= x0 {
        x1 - x0
    } else {
        x0 - x1
    };
    let dy = if y1 >= y0 {
        y0 - y1
    } else {
        y1 - y0
    };

    let sx: i32 = if x0 < x1 {
        1
    } else {
        -1
    };
    let sy: i32 = if y0 < y1 {
        1
    } else {
        -1
    };

    let mut err = dx + dy;
    let mut x = x0;
    let mut y = y0;

    // Ghost step counters: how far the walk has come along each axis.
    let ghost mut aa: int = 0;
    let ghost mut bb: int = 0;
    proof {
        assert((bb + 1) * dx + (aa + 1) * dy == dx + dy) by (nonlinear_arith)
            requires
                aa == 0,
                bb == 0,
        ;
    }

    loop
        invariant_except_break
            0 <= x <= 0x2000_0000,
            0 <= y <= 0x2000_0000,
            0 <= x0 <= 0x2000_0000 && 0 <= x1 <= 0x2000_0000,
            0 <= y0 <= 0x2000_0000 && 0 <= y1 <= 0x2000_0000,
            x0 <= x1 ==> x0 <= x <= x1,
            x0 > x1 ==> x1 <= x <= x0,
            y0 <= y1 ==> y0 <= y <= y1,
            y0 > y1 ==> y1 <= y <= y0,
            x0 == start.x && y0 == start.y && x1 == end.x && y1 == end.y,
            dx == (if x1 >= x0 {
                x1 - x0
            } else {
                x0 - x1
            }),
            dy == (if y1 >= y0 {
                y0 - y1
            } else {
                y1 - y0
            }),
            sx == (if x0 < x1 {
                1int
            } else {
                -1int
            }),
            sy == (if y0 < y1 {
                1int
            } else {
                -1int
            }),
            in_box(GridPos { x: x as u32, y: y as u32 }, start, end),
            0 <= dx <= 0x2000_0000,
            -0x2000_0000 <= dy <= 0,
            -0x3000_0000 <= err <= 0x3000_0000,
            aa == (if x0 <= x1 {
                x - x0
            } else {
                x0 - x
            }),
            bb == (if y0 <= y1 {
                y - y0
            } else {
                y0 - y
            }),
            0 <= aa <= dx,
            0 <= bb <= -dy,
            err == (bb + 1) * dx + (aa + 1) * dy,
            points@.len() == 0 ==> x == x0 && y == y0,
            points@.len() >= 1 ==> points@[0] == start,
            points@.len() >= 1 ==> unit_step(
                points@[points@.len() - 1],
                GridPos { x: x as u32, y: y as u32 },
            ),
            forall|i: int| 0 <= i < points@.len() - 1 ==> #[trigger] unit_step(points@[i], points@[i + 1]),
            forall|i: int| 0 <= i < points@.len() ==> #[trigger] in_box(points@[i], start, end),
        ensures
            points@.len() >= 1,
            points@[0] == start,
            points@[points@.len() - 1] == end,
            forall|i: int| 0 <= i < points@.len() - 1 ==> #[trigger] unit_step(points@[i], points@[i + 1]),
            forall|i: int| 0 <= i < points@.len() ==> #[trigger] in_box(points@[i], start, end),
        decreases
                (if x1 >= x {
                    x1 - x
                } else {
                    x - x1
                }) + (if y1 >= y {
                    y1 - y
                } else {
                    y - y1
                }),
    {
        points.push(GridPos { x: x as u32, y: y as u32 });

        if x == x1 && y == y1 {
            break ;
        }

        let ghost aa0 = aa;
        let e2 = 2 * err;
        let mut stepped = false;

        if e2 >= dy {
            if x == x1 {
                proof {
                    // The column is finished but the row is not, and the
                    // error bookkeeping rules out another horizontal step.
                    assert(bb + 1 <= -dy);
                    assert(false) by (nonlinear_arith)
                        requires
                            e2 == 2 * err,
                            e2 >= dy,
                            err == (bb + 1) * dx + (aa + 1) * dy,
                            aa == dx,
                            0 <= bb,
                            bb + 1 <= -dy,
                            0 <= dx,
                            dy <= 0,
                    ;
                }
                break ;
            }
            proof {
                assert((aa + 2) * dy == (aa + 1) * dy + dy) by (nonlinear_arith);
            }
            err += dy;
            x += sx;
            proof {
                aa = aa + 1;
            }
            stepped = true;
        }

        if e2 <= dx {
            if y == y1 {
                proof {
                    // The row is finished but the column is not, and the
                    // error bookkeeping rules out another vertical step.
                    assert(aa0 + 1 <= dx);
                    assert(false) by (nonlinear_arith)
                        requires
                            e2 == 2 * ((bb + 1) * dx + (aa0 + 1) * dy),
                            e2 <= dx,
                            bb == -dy,
                            0 <= aa0,
                            aa0 + 1 <= dx,
                            0 <= dx,
                            dy <= 0,
                    ;
                }
                break ;
            }
            proof {
                assert((bb + 2) * dx == (bb + 1) * dx + dx) by (nonlinear_arith);
            }
            err += dx;
            y += sy;
            proof {
                bb = bb + 1;
            }
            stepped = true;
        }

        proof {
            assert(stepped);
        }
    }

    points
}

} // verus!
