use vstd::prelude::*;

use crate::algorithms::grid::endpoints_ok;
use crate::algorithms::grid::GridMap;
use crate::algorithms::search_support::all_expanded;
use crate::algorithms::search_support::conclude;
use crate::algorithms::search_support::count_finite;
use crate::algorithms::search_support::discovered;
use crate::algorithms::search_support::expanded;
use crate::algorithms::search_support::fully_relaxed;
use crate::algorithms::search_support::init_search_state;
use crate::algorithms::search_support::INF;
use crate::algorithms::search_support::lemma_count_finite_bounds;
use crate::algorithms::search_support::relax_edge;
use crate::algorithms::search_support::relaxed_at;
use crate::algorithms::search_support::search_inv;
use crate::algorithms::search_support::search_outcome_ok;
use crate::algorithms::search_support::search_outcome_optimal;
use crate::algorithms::GridBlock;
use crate::algorithms::Point;
use crate::algorithms::SearchOutcome;

verus! {

/// Breadth-first search: a FIFO frontier explores in rings of growing hop
/// count, each cell discovered once, so the route it returns has as few
/// edges as any route between the endpoints.
pub fn run(grid: &GridMap, start: &Point, end: &Point) -> (r: SearchOutcome)
    requires
        grid.wf(),
        endpoints_ok(*grid, *start, *end),
    ensures
        search_outcome_ok(*grid, *start, *end, r),
        search_outcome_optimal(*grid, *start, *end, r),
{
    let mut st = init_search_state(grid, start);
    let mut queue: Vec<Point> = Vec::new();
    queue.push(*start);
    proof {
        assert(queue@[0] == *start);
    }
    while queue.len() > 0
        invariant
            grid.wf(),
            endpoints_ok(*grid, *start, *end),
            search_inv(*grid, *start, st),
            forall|k: int|
                0 <= k < queue@.len() ==> grid.in_bounds(#[trigger] queue@[k]) && discovered(
                    *grid,
                    st,
                    queue@[k],
                ),
            forall|k1: int, k2: int|
                0 <= k1 <= k2 < queue@.len() ==> st.dist@[grid.spec_idx(#[trigger] queue@[k1])]
                    <= st.dist@[grid.spec_idx(#[trigger] queue@[k2])],
            queue@.len() > 0 ==> st.dist@[grid.spec_idx(queue@[queue@.len() - 1])]
                <= st.dist@[grid.spec_idx(queue@[0])] + 1,
            queue@.len() > 0 ==> forall|p: Point|
                grid.in_bounds(p) && discovered(*grid, st, p) ==> st.dist@[#[trigger] grid.spec_idx(
                    p,
                )] <= st.dist@[grid.spec_idx(queue@[queue@.len() - 1])],
            forall|p: Point|
                grid.in_bounds(p) && discovered(*grid, st, p) && !queue@.contains(p)
                    ==> #[trigger] relaxed_at(*grid, st, p),
        decreases grid.cell_count() - count_finite(st.dist@), queue@.len(),
    {
        proof {
            lemma_count_finite_bounds(st.dist@);
            assert(grid.cell_count() <= 10000) by (nonlinear_arith)
                requires
                    grid.size.width <= 100,
                    grid.size.height <= 100,
            ;
        }
        let ghost st_iter = st;
        let ghost queue_iter = queue@;
        let cur = queue.remove(0);
        proof {
            assert forall|p: Point| queue_iter.contains(p) && p != cur implies queue@.contains(
                p,
            ) by {
                let k = choose|k: int| 0 <= k < queue_iter.len() && queue_iter[k] == p;
                assert(queue@[k - 1] == p);
            }
        }
        let ghost dcur = st.dist@[grid.spec_idx(cur)];
        let nbrs = grid.get_surrounding_blocks(&cur);
        let nbrs_len = nbrs.len();
        for i in 0..nbrs_len
            invariant
                grid.wf(),
                endpoints_ok(*grid, *start, *end),
                search_inv(*grid, *start, st),
                nbrs_len == nbrs@.len(),
                grid.in_bounds(cur),
                discovered(*grid, st, cur),
                st.dist@[grid.spec_idx(cur)] == dcur,
                dcur + 1 < INF,
                forall|j: int|
                    0 <= j < nbrs@.len() ==> grid.in_bounds((#[trigger] nbrs@[j]).1)
                        && crate::algorithms::grid::adjacent(cur, nbrs@[j].1) && nbrs@[j].0
                        == grid.block_at(nbrs@[j].1),
                forall|q: Point|
                    grid.in_bounds(q) && #[trigger] crate::algorithms::grid::adjacent(cur, q)
                        ==> exists|j: int| 0 <= j < nbrs@.len() && (#[trigger] nbrs@[j]).1 == q,
                forall|j: int|
                    0 <= j < i ==> ((#[trigger] nbrs@[j]).0 == GridBlock::Obstacle || (discovered(
                        *grid,
                        st,
                        nbrs@[j].1,
                    ) && st.dist@[grid.spec_idx(nbrs@[j].1)] <= dcur + 1)),
                forall|k: int|
                    0 <= k < queue@.len() ==> grid.in_bounds(#[trigger] queue@[k]) && discovered(
                        *grid,
                        st,
                        queue@[k],
                    ),
                forall|k: int|
                    0 <= k < queue@.len() ==> dcur <= st.dist@[grid.spec_idx(#[trigger] queue@[k])]
                        <= dcur + 1,
                forall|k1: int, k2: int|
                    0 <= k1 <= k2 < queue@.len() ==> st.dist@[grid.spec_idx(#[trigger] queue@[k1])]
                        <= st.dist@[grid.spec_idx(#[trigger] queue@[k2])],
                forall|p: Point|
                    grid.in_bounds(p) && discovered(*grid, st, p) ==> st.dist@[#[trigger] grid.spec_idx(
                        p,
                    )] <= dcur + 1,
                queue@.len() > 0 ==> forall|p: Point|
                    grid.in_bounds(p) && discovered(*grid, st, p) ==> st.dist@[#[trigger] grid.spec_idx(
                        p,
                    )] <= st.dist@[grid.spec_idx(queue@[queue@.len() - 1])],
                queue@.len() == 0 ==> forall|p: Point|
                    grid.in_bounds(p) && discovered(*grid, st, p) ==> st.dist@[#[trigger] grid.spec_idx(
                        p,
                    )] <= dcur,
                forall|p: Point|
                    grid.in_bounds(p) && discovered(*grid, st, p) && !queue@.contains(p) && p != cur
                        ==> #[trigger] relaxed_at(*grid, st, p),
                count_finite(st.dist@) >= count_finite(st_iter.dist@),
                count_finite(st.dist@) > count_finite(st_iter.dist@) || queue@.len()
                    < queue_iter.len(),
        {
            let pair = nbrs[i];
            let nb = pair.0;
            let nq = pair.1;
            if !(nb == GridBlock::Obstacle) {
                let ni = grid.index_of(&nq);
                if !st.visited[ni] {
                    let ghost st_pre = st;
                    let ghost q_pre = queue@;
                    let changed = relax_edge(grid, Ghost(*start), &mut st, &cur, &nq);
                    assert(changed);
                    queue.push(nq);
                    proof {
                        assert forall|p: Point|
                            grid.in_bounds(p) && discovered(*grid, st, p) && !queue@.contains(p)
                                && p != cur implies #[trigger] relaxed_at(*grid, st, p) by {
                            assert(queue@[queue@.len() - 1] == nq);
                            assert(p != nq);
                            assert(discovered(*grid, st_pre, p));
                            assert(!q_pre.contains(p)) by {
                                if q_pre.contains(p) {
                                    let k = choose|k: int| 0 <= k < q_pre.len() && q_pre[k] == p;
                                    assert(queue@[k] == p);
                                }
                            }
                            assert(relaxed_at(*grid, st_pre, p));
                            assert forall|q: Point|
                                grid.in_bounds(q) && #[trigger] crate::algorithms::grid::adjacent(
                                    p,
                                    q,
                                ) && grid.block_at(q) != GridBlock::Obstacle implies discovered(
                                *grid,
                                st,
                                q,
                            ) && st.dist@[grid.spec_idx(q)] <= st.dist@[grid.spec_idx(p)] + 1 by {
                                assert(discovered(*grid, st_pre, q));
                                assert(q != nq);
                            }
                        }
                    }
                }
            }
        }
        proof {
            lemma_count_finite_bounds(st.dist@);
            assert(relaxed_at(*grid, st, cur)) by {
                assert forall|q: Point|
                    grid.in_bounds(q) && #[trigger] crate::algorithms::grid::adjacent(cur, q)
                        && grid.block_at(q) != GridBlock::Obstacle implies discovered(*grid, st, q)
                    && st.dist@[grid.spec_idx(q)] <= st.dist@[grid.spec_idx(cur)] + 1 by {
                    let j = choose|j: int| 0 <= j < nbrs@.len() && (#[trigger] nbrs@[j]).1 == q;
                    assert(nbrs@[j].0 == grid.block_at(q));
                }
            }
        }
    }
    proof {
        assert forall|p: Point|
            grid.in_bounds(p) && discovered(*grid, st, p) implies #[trigger] relaxed_at(
            *grid,
            st,
            p,
        ) by {
            assert(!queue@.contains(p));
        }
        assert(fully_relaxed(*grid, st));
        assert forall|p: Point|
            grid.in_bounds(p) && discovered(*grid, st, p) implies #[trigger] expanded(
            *grid,
            st,
            p,
        ) by {
            assert(relaxed_at(*grid, st, p));
        }
        assert(all_expanded(*grid, st));
    }
    conclude(grid, start, end, &st)
}

} // verus!
