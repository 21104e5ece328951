//! The cross-chunk move queue: logically a map keyed by target position,
//! kept sorted by target row then column so the apply phase processes
//! moves in a fixed, deterministic order. When two moves compete for one
//! target, the one with the shorter source-to-target distance wins.
use vstd::prelude::*;
use vstd::pervasive::VecAdditionalExecFns;

use crate::chunk::ParticleMove;
use crate::coords::GridPos;

verus! {

/// The absolute difference of two coordinates.
pub open spec fn coord_dist(a: u32, b: u32) -> int {
    if a >= b {
        a - b
    } else {
        b - a
    }
}

/// The Manhattan distance from a move's source to its target.
pub open spec fn move_distance(m: ParticleMove) -> int {
    coord_dist(m.source_pos.x, m.target_pos.x) + coord_dist(m.source_pos.y, m.target_pos.y)
}

/// Strict ordering of moves by target row, then target column.
pub open spec fn target_lt(a: ParticleMove, b: ParticleMove) -> bool {
    a.target_pos.y < b.target_pos.y || (a.target_pos.y == b.target_pos.y && a.target_pos.x
        < b.target_pos.x)
}

/// Whether the queue is sorted strictly by target: in particular no two
/// queued moves share a target cell.
pub open spec fn queue_wf(q: Seq<ParticleMove>) -> bool {
    forall|i: int, j: int| 0 <= i < j < q.len() ==> target_lt(#[trigger] q[i], #[trigger] q[j])
}

/// Whether some queued move targets `pos`.
pub open spec fn queue_has_target(q: Seq<ParticleMove>, pos: GridPos) -> bool {
    exists|i: int| 0 <= i < q.len() && (#[trigger] q[i]).target_pos == pos
}

/// Whether some queued move has `pos` as its source.
pub open spec fn queue_has_source(q: Seq<ParticleMove>, pos: GridPos) -> bool {
    exists|i: int| 0 <= i < q.len() && (#[trigger] q[i]).source_pos == pos
}

/// In a well-formed queue at most one move targets any cell.
pub proof fn lemma_queue_target_unique(q: Seq<ParticleMove>, i: int, j: int)
    requires
        queue_wf(q),
        0 <= i < q.len(),
        0 <= j < q.len(),
        q[i].target_pos == q[j].target_pos,
    ensures
        i == j,
{
    if i < j {
        assert(target_lt(q[i], q[j]));
    }
    if j < i {
        assert(target_lt(q[j], q[i]));
    }
}

/// What queuing `m` does to the queue: the relation `MoveQueue::insert`
/// establishes between the queue before and after. Nothing is invented,
/// other targets are untouched, a fresh target admits `m`, a contested
/// target keeps the closer move (the earlier one winning ties), and the
/// set of targets grows by exactly `m`'s target.
pub open spec fn insert_effect(q0: Seq<ParticleMove>, m: ParticleMove, q1: Seq<ParticleMove>) -> bool {
    &&& queue_wf(q1)
    &&& forall|e: ParticleMove| q1.contains(e) ==> q0.contains(e) || e == m
    &&& forall|e: ParticleMove|
        q0.contains(e) && e.target_pos != m.target_pos ==> q1.contains(e)
    &&& forall|e: ParticleMove|
        q1.contains(e) && e.target_pos != m.target_pos ==> q0.contains(e)
    &&& (!queue_has_target(q0, m.target_pos) ==> q1.contains(m))
    &&& forall|e: ParticleMove|
        q0.contains(e) && e.target_pos == m.target_pos ==> q1.contains(
            if move_distance(m) < move_distance(e) {
                m
            } else {
                e
            },
        )
    &&& forall|p: GridPos|
        queue_has_target(q1, p) <==> queue_has_target(q0, p) || p == m.target_pos
}

/// The queue of pending cross-chunk moves for one tick.
pub struct MoveQueue {
    pub moves: Vec<ParticleMove>,
}

impl View for MoveQueue {
    type V = Seq<ParticleMove>;

    open spec fn view(&self) -> Seq<ParticleMove> {
        self.moves@
    }
}

/// Exact Manhattan distance from a move's source to its target.
fn move_distance_exec(m: &ParticleMove) -> (r: u64)
    ensures
        r == move_distance(*m),
{
    let dx = if m.source_pos.x >= m.target_pos.x {
        m.source_pos.x - m.target_pos.x
    } else {
        m.target_pos.x - m.source_pos.x
    };
    let dy = if m.source_pos.y >= m.target_pos.y {
        m.source_pos.y - m.target_pos.y
    } else {
        m.target_pos.y - m.source_pos.y
    };
    dx as u64 + dy as u64
}

impl MoveQueue {
    /// An empty queue.
    pub fn new() -> (r: Self)
        ensures
            r@ == Seq::<ParticleMove>::empty(),
            queue_wf(r@),
    {
        let r = MoveQueue { moves: Vec::new() };
        proof {
            assert(r@ =~= Seq::<ParticleMove>::empty());
        }
        r
    }

    /// How many moves are queued.
    pub fn len(&self) -> (r: usize)
        ensures
            r == self@.len(),
    {
        self.moves.len()
    }

    /// Whether a move to `pos` is already queued.
    pub fn contains_target(&self, pos: GridPos) -> (r: bool)
        ensures
            r == queue_has_target(self@, pos),
    {
        let n = self.moves.len();
        let mut i: usize = 0;
        while i < n
            invariant
                i <= n,
                n == self@.len(),
                forall|j: int| 0 <= j < i ==> (#[trigger] self@[j]).target_pos != pos,
            decreases n - i,
        {
            if self.moves[i].target_pos.x == pos.x && self.moves[i].target_pos.y == pos.y {
                return true;
            }
            i += 1;
        }
        false
    }

    /// Queues `m`. If no queued move targets the same cell, `m` is added;
    /// otherwise the move whose source is strictly closer to the target
    /// keeps the slot, the earlier one winning ties.
    pub fn insert(&mut self, m: ParticleMove)
        requires
            queue_wf(old(self)@),
        ensures
            insert_effect(old(self)@, m, final(self)@),
    {
        let n = self.moves.len();
        let mut i: usize = 0;
        loop
            invariant_except_break
                i <= n,
                n == self@.len(),
                self@ == old(self)@,
                queue_wf(self@),
                forall|j: int| 0 <= j < i ==> target_lt(#[trigger] self@[j], m),
            ensures
                i <= n,
                self@ == old(self)@,
                n == self@.len(),
                forall|j: int| 0 <= j < i ==> target_lt(#[trigger] self@[j], m),
                i < n ==> !target_lt(self@[i as int], m),
            decreases n - i,
        {
            if i == n {
                break ;
            }
            let e = &self.moves[i];
            let before = e.target_pos.y < m.target_pos.y || (e.target_pos.y == m.target_pos.y
                && e.target_pos.x < m.target_pos.x);
            if !before {
                break ;
            }
            i += 1;
        }

        if i < n && self.moves[i].target_pos.x == m.target_pos.x && self.moves[i].target_pos.y
            == m.target_pos.y {
            let ghost prev = self@;
            let existing_distance = move_distance_exec(&self.moves[i]);
            let new_distance = move_distance_exec(&m);
            if new_distance < existing_distance {
                self.moves.set(i, m);
                proof {
                    let q = self@;
                    assert forall|a: int, b: int| 0 <= a < b < q.len() implies target_lt(
                        #[trigger] q[a],
                        #[trigger] q[b],
                    ) by {
                        assert(prev[a].target_pos == q[a].target_pos || a == i);
                        assert(target_lt(prev[a], prev[b]));
                    }
                    assert forall|e: ParticleMove|
                        prev.contains(e) && e.target_pos == m.target_pos implies q.contains(
                        if move_distance(m) < move_distance(e) {
                            m
                        } else {
                            e
                        },
                    ) by {
                        let k = choose|k: int| 0 <= k < prev.len() && prev[k] == e;
                        lemma_queue_target_unique(prev, k, i as int);
                        assert(q[i as int] == m);
                    }
                    assert forall|p: GridPos|
                        queue_has_target(q, p) <==> queue_has_target(prev, p) || p
                            == m.target_pos by {
                        if queue_has_target(prev, p) {
                            let k = choose|k: int|
                                0 <= k < prev.len() && (#[trigger] prev[k]).target_pos == p;
                            assert(q[k].target_pos == p);
                        }
                        if queue_has_target(q, p) {
                            let k = choose|k: int|
                                0 <= k < q.len() && (#[trigger] q[k]).target_pos == p;
                            if k != i {
                                assert(prev[k].target_pos == p);
                            }
                        }
                    }
                    assert forall|e: ParticleMove| q.contains(e) implies prev.contains(e) || e
                        == m by {
                        let k = choose|k: int| 0 <= k < q.len() && q[k] == e;
                        if k != i {
                            assert(prev[k] == e);
                        }
                    }
                    assert forall|e: ParticleMove|
                        prev.contains(e) && e.target_pos != m.target_pos implies q.contains(
                        e,
                    ) by {
                        let k = choose|k: int| 0 <= k < prev.len() && prev[k] == e;
                        assert(q[k] == e);
                    }
                    assert forall|e: ParticleMove|
                        q.contains(e) && e.target_pos != m.target_pos implies prev.contains(
                        e,
                    ) by {
                        let k = choose|k: int| 0 <= k < q.len() && q[k] == e;
                        assert(k != i);
                        assert(prev[k] == e);
                    }
                }
            } else {
                proof {
                    let q = self@;
                    assert forall|e: ParticleMove|
                        q.contains(e) && e.target_pos == m.target_pos implies q.contains(
                        if move_distance(m) < move_distance(e) {
                            m
                        } else {
                            e
                        },
                    ) by {
                        let k = choose|k: int| 0 <= k < q.len() && q[k] == e;
                        lemma_queue_target_unique(q, k, i as int);
                    }
                    assert forall|p: GridPos|
                        queue_has_target(self@, p) <==> queue_has_target(old(self)@, p) || p
                            == m.target_pos by {
                        assert(self@[i as int].target_pos == m.target_pos);
                    }
                }
            }
        } else {
            let ghost prev = self@;
            self.moves.insert(i, m);
            proof {
                let q = self@;
                assert(q.len() == prev.len() + 1);
                assert forall|a: int, b: int| 0 <= a < b < q.len() implies target_lt(
                    #[trigger] q[a],
                    #[trigger] q[b],
                ) by {
                    if a < i && b < i {
                        assert(q[a] == prev[a] && q[b] == prev[b]);
                    } else if a < i && b == i {
                        assert(q[a] == prev[a]);
                    } else if a < i && b > i {
                        assert(q[a] == prev[a] && q[b] == prev[b - 1]);
                        assert(target_lt(prev[a], m));
                        if i < n {
                            assert(!target_lt(prev[i as int], m));
                            assert(prev[i as int].target_pos != m.target_pos);
                            assert(target_lt(m, prev[i as int]));
                            if b - 1 > i {
                                assert(target_lt(prev[i as int], prev[b - 1]));
                            }
                        }
                        assert(target_lt(q[a], q[b]));
                    } else if a == i {
                        assert(q[a] == m && q[b] == prev[b - 1]);
                        assert(!target_lt(prev[i as int], m));
                        assert(prev[i as int].target_pos != m.target_pos);
                        assert(target_lt(m, prev[i as int]));
                        if b - 1 > i {
                            assert(target_lt(prev[i as int], prev[b - 1]));
                        }
                    } else {
                        assert(q[a] == prev[a - 1] && q[b] == prev[b - 1]);
                    }
                }
                assert(q.contains(m)) by {
                    assert(q[i as int] == m);
                }
                assert forall|e: ParticleMove| q.contains(e) implies prev.contains(e) || e
                    == m by {
                    let k = choose|k: int| 0 <= k < q.len() && q[k] == e;
                    if k < i {
                        assert(prev[k] == e);
                    } else if k > i {
                        assert(prev[k - 1] == e);
                    }
                }
                assert forall|e: ParticleMove| prev.contains(e) implies q.contains(e) by {
                    let k = choose|k: int| 0 <= k < prev.len() && prev[k] == e;
                    if k < i {
                        assert(q[k] == e);
                    } else {
                        assert(q[k + 1] == e);
                    }
                }
                assert forall|e: ParticleMove|
                    prev.contains(e) && e.target_pos == m.target_pos implies q.contains(
                    if move_distance(m) < move_distance(e) {
                        m
                    } else {
                        e
                    },
                ) by {
                    let k = choose|k: int| 0 <= k < prev.len() && prev[k] == e;
                    if k < i {
                        assert(target_lt(prev[k], m));
                        assert(false);
                    } else if i < n {
                        assert(!target_lt(prev[i as int], m));
                        if k > i {
                            assert(target_lt(prev[i as int], prev[k]));
                        }
                        assert(false);
                    } else {
                        assert(target_lt(prev[k], m));
                        assert(false);
                    }
                }
                assert forall|p: GridPos|
                    queue_has_target(q, p) <==> queue_has_target(prev, p) || p
                        == m.target_pos by {
                    if queue_has_target(prev, p) {
                        let k = choose|k: int|
                            0 <= k < prev.len() && (#[trigger] prev[k]).target_pos == p;
                        if k < i {
                            assert(q[k].target_pos == p);
                        } else {
                            assert(q[k + 1].target_pos == p);
                        }
                    }
                    if p == m.target_pos {
                        assert(q[i as int].target_pos == p);
                    }
                    if queue_has_target(q, p) {
                        let k = choose|k: int|
                            0 <= k < q.len() && (#[trigger] q[k]).target_pos == p;
                        if k < i {
                            assert(prev[k].target_pos == p);
                        } else if k > i {
                            assert(prev[k - 1].target_pos == p);
                        }
                    }
                }
            }
        }
    }
}

} // verus!
