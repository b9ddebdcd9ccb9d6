use vstd::prelude::*;

use crate::algorithms::grid::endpoints_ok;
use crate::algorithms::grid::GridMap;
use crate::algorithms::search_support::all_expanded;
use crate::algorithms::search_support::conclude;
use crate::algorithms::search_support::discovered;
use crate::algorithms::search_support::expanded;
use crate::algorithms::search_support::frontier_contains;
use crate::algorithms::search_support::fully_relaxed;
use crate::algorithms::search_support::init_search_state;
use crate::algorithms::search_support::lemma_sum_dist_nonneg;
use crate::algorithms::search_support::relax_edge;
use crate::algorithms::search_support::relaxed_at;
use crate::algorithms::search_support::search_inv;
use crate::algorithms::search_support::search_outcome_ok;
use crate::algorithms::search_support::search_outcome_optimal;
use crate::algorithms::search_support::sum_dist;
use crate::algorithms::GridBlock;
use crate::algorithms::Point;
use crate::algorithms::SearchOutcome;

verus! {

/// Dijkstra's algorithm: the frontier cell of least tentative distance is
/// settled next, every edge out of it relaxed on discovery, and an improved
/// cell rejoins the frontier; when the frontier empties the distances are a
/// fixed point, so the route returned has as few edges as any.
#[verifier::rlimit(100)]
pub fn run(grid: &GridMap, start: &Point, end: &Point) -> (r: SearchOutcome)
    requires
        grid.wf(),
        endpoints_ok(*grid, *start, *end),
    ensures
        search_outcome_ok(*grid, *start, *end, r),
        search_outcome_optimal(*grid, *start, *end, r),
{
    let mut st = init_search_state(grid, start);
    let mut open: Vec<Point> = Vec::new();
    open.push(*start);
    proof {
        assert(open@[0] == *start);
    }
    while open.len() > 0
        invariant
            grid.wf(),
            endpoints_ok(*grid, *start, *end),
            search_inv(*grid, *start, st),
            forall|k: int|
                0 <= k < open@.len() ==> grid.in_bounds(#[trigger] open@[k]) && discovered(
                    *grid,
                    st,
                    open@[k],
                ),
            forall|p: Point|
                grid.in_bounds(p) && discovered(*grid, st, p) && !open@.contains(p)
                    ==> #[trigger] relaxed_at(*grid, st, p),
        decreases sum_dist(st.dist@), open@.len(),
    {
        proof {
            lemma_sum_dist_nonneg(st.dist@);
        }
        let ghost st_iter = st;
        let ghost open_iter = open@;
        let mut best: usize = 0;
        let open_len = open.len();
        for k in 1..open_len
            invariant
                grid.wf(),
                search_inv(*grid, *start, st),
                open_len == open@.len(),
                open@.len() > 0,
                best < k,
                forall|j: int|
                    0 <= j < open@.len() ==> grid.in_bounds(#[trigger] open@[j]) && discovered(
                        *grid,
                        st,
                        open@[j],
                    ),
                forall|j: int|
                    0 <= j < k ==> st.dist@[grid.spec_idx(open@[best as int])]
                        <= st.dist@[grid.spec_idx(#[trigger] open@[j])],
        {
            if st.dist[grid.index_of(&open[k])] < st.dist[grid.index_of(&open[best])] {
                best = k;
            }
        }
        let cur = open.remove(best);
        proof {
            assert forall|p: Point| open_iter.contains(p) && p != cur implies open@.contains(
                p,
            ) by {
                let k = choose|k: int| 0 <= k < open_iter.len() && open_iter[k] == p;
                if k < best {
                    assert(open@[k] == p);
                } else {
                    assert(open@[k - 1] == p);
                }
            }
        }
        let ghost dcur = st.dist@[grid.spec_idx(cur)];
        let nbrs = grid.get_surrounding_blocks(&cur);
        let nbrs_len = nbrs.len();
        for i in 0..nbrs_len
            invariant
                grid.wf(),
                endpoints_ok(*grid, *start, *end),
                search_inv(*grid, *start, st),
                nbrs_len == nbrs@.len(),
                grid.in_bounds(cur),
                discovered(*grid, st, cur),
                st.dist@[grid.spec_idx(cur)] == dcur,
                forall|j: int|
                    0 <= j < nbrs@.len() ==> grid.in_bounds((#[trigger] nbrs@[j]).1)
                        && crate::algorithms::grid::adjacent(cur, nbrs@[j].1) && nbrs@[j].0
                        == grid.block_at(nbrs@[j].1),
                forall|q: Point|
                    grid.in_bounds(q) && #[trigger] crate::algorithms::grid::adjacent(cur, q)
                        ==> exists|j: int| 0 <= j < nbrs@.len() && (#[trigger] nbrs@[j]).1 == q,
                forall|j: int|
                    0 <= j < i ==> ((#[trigger] nbrs@[j]).0 == GridBlock::Obstacle || (discovered(
                        *grid,
                        st,
                        nbrs@[j].1,
                    ) && st.dist@[grid.spec_idx(nbrs@[j].1)] <= dcur + 1)),
                forall|k: int|
                    0 <= k < open@.len() ==> grid.in_bounds(#[trigger] open@[k]) && discovered(
                        *grid,
                        st,
                        open@[k],
                    ),
                forall|p: Point|
                    grid.in_bounds(p) && discovered(*grid, st, p) && !open@.contains(p) && p != cur
                        ==> #[trigger] relaxed_at(*grid, st, p),
                sum_dist(st.dist@) <= sum_dist(st_iter.dist@),
                sum_dist(st.dist@) < sum_dist(st_iter.dist@) || open@.len() < open_iter.len(),
        {
            let pair = nbrs[i];
            let nb = pair.0;
            let nq = pair.1;
            if !(nb == GridBlock::Obstacle) {
                let ghost st_pre = st;
                let ghost open_pre = open@;
                let changed = relax_edge(grid, Ghost(*start), &mut st, &cur, &nq);
                if changed {
                    if !frontier_contains(&open, &nq) {
                        open.push(nq);
                        proof {
                            assert(open@[open@.len() - 1] == nq);
                        }
                    }
                    proof {
                        assert(open@.contains(nq));
                        assert forall|q: Point| open_pre.contains(q) implies open@.contains(q) by {
                            let k = choose|k: int| 0 <= k < open_pre.len() && open_pre[k] == q;
                            assert(open@[k] == q);
                        }
                        assert forall|p: Point|
                            grid.in_bounds(p) && discovered(*grid, st, p) && !open@.contains(p)
                                && p != cur implies #[trigger] relaxed_at(*grid, st, p) by {
                            assert(p != nq);
                            assert(discovered(*grid, st_pre, p));
                            assert(!open_pre.contains(p));
                            assert(relaxed_at(*grid, st_pre, p));
                            assert forall|q: Point|
                                grid.in_bounds(q) && #[trigger] crate::algorithms::grid::adjacent(
                                    p,
                                    q,
                                ) && grid.block_at(q) != GridBlock::Obstacle implies discovered(
                                *grid,
                                st,
                                q,
                            ) && st.dist@[grid.spec_idx(q)] <= st.dist@[grid.spec_idx(p)] + 1 by {
                                assert(discovered(*grid, st_pre, q));
                                if q != nq {
                                    assert(st.dist@[grid.spec_idx(q)]
                                        == st_pre.dist@[grid.spec_idx(q)]);
                                }
                            }
                        }
                    }
                }
            }
        }
        proof {
            lemma_sum_dist_nonneg(st.dist@);
            assert(relaxed_at(*grid, st, cur)) by {
                assert forall|q: Point|
                    grid.in_bounds(q) && #[trigger] crate::algorithms::grid::adjacent(cur, q)
                        && grid.block_at(q) != GridBlock::Obstacle implies discovered(*grid, st, q)
                    && st.dist@[grid.spec_idx(q)] <= st.dist@[grid.spec_idx(cur)] + 1 by {
                    let j = choose|j: int| 0 <= j < nbrs@.len() && (#[trigger] nbrs@[j]).1 == q;
                    assert(nbrs@[j].0 == grid.block_at(q));
                }
            }
        }
    }
    proof {
        assert forall|p: Point|
            grid.in_bounds(p) && discovered(*grid, st, p) implies #[trigger] relaxed_at(
            *grid,
            st,
            p,
        ) by {
            assert(!open@.contains(p));
        }
        assert(fully_relaxed(*grid, st));
        assert forall|p: Point|
            grid.in_bounds(p) && discovered(*grid, st, p) implies #[trigger] expanded(
            *grid,
            st,
            p,
        ) by {
            assert(relaxed_at(*grid, st, p));
        }
        assert(all_expanded(*grid, st));
    }
    conclude(grid, start, end, &st)
}

} // verus!
