use vstd::prelude::*;

use crate::algorithms::grid::endpoints_ok;
use crate::algorithms::grid::GridMap;
use crate::algorithms::search_support::all_expanded;
use crate::algorithms::search_support::conclude;
use crate::algorithms::search_support::count_finite;
use crate::algorithms::search_support::discovered;
use crate::algorithms::search_support::expanded;
use crate::algorithms::search_support::init_search_state;
use crate::algorithms::search_support::lemma_count_finite_bounds;
use crate::algorithms::search_support::relax_edge;
use crate::algorithms::search_support::search_inv;
use crate::algorithms::search_support::search_outcome_ok;
use crate::algorithms::search_support::INF;
use crate::algorithms::GridBlock;
use crate::algorithms::Point;
use crate::algorithms::SearchOutcome;

verus! {

/// Depth-first search: a LIFO frontier dives along one branch before
/// backtracking, each cell marked visited before it is pushed, so the walk
/// terminates and the verdict matches reachability — though the route it
/// finds need not be a shortest one.
pub fn run(grid: &GridMap, start: &Point, end: &Point) -> (r: SearchOutcome)
    requires
        grid.wf(),
        endpoints_ok(*grid, *start, *end),
    ensures
        search_outcome_ok(*grid, *start, *end, r),
{
    let mut st = init_search_state(grid, start);
    let mut stack: Vec<Point> = Vec::new();
    stack.push(*start);
    proof {
        assert(stack@[0] == *start);
    }
    while stack.len() > 0
        invariant
            grid.wf(),
            endpoints_ok(*grid, *start, *end),
            search_inv(*grid, *start, st),
            forall|k: int|
                0 <= k < stack@.len() ==> grid.in_bounds(#[trigger] stack@[k]) && discovered(
                    *grid,
                    st,
                    stack@[k],
                ),
            forall|p: Point|
                grid.in_bounds(p) && discovered(*grid, st, p) && !stack@.contains(p)
                    ==> #[trigger] expanded(*grid, st, p),
        decreases grid.cell_count() - count_finite(st.dist@), stack@.len(),
    {
        proof {
            lemma_count_finite_bounds(st.dist@);
            assert(grid.cell_count() <= 10000) by (nonlinear_arith)
                requires
                    grid.size.width <= 100,
                    grid.size.height <= 100,
            ;
        }
        let ghost st_iter = st;
        let ghost stack_iter = stack@;
        let cur = match stack.pop() {
            Some(p) => p,
            None => {
                proof {
                    assert(false);
                }
                *start
            },
        };
        proof {
            assert forall|p: Point| stack_iter.contains(p) && p != cur implies stack@.contains(
                p,
            ) by {
                let k = choose|k: int| 0 <= k < stack_iter.len() && stack_iter[k] == p;
                assert(stack@[k] == p);
            }
        }
        let ghost dcur = st.dist@[grid.spec_idx(cur)];
        let nbrs = grid.get_surrounding_blocks(&cur);
        let nbrs_len = nbrs.len();
        for i in 0..nbrs_len
            invariant
                grid.wf(),
                endpoints_ok(*grid, *start, *end),
                search_inv(*grid, *start, st),
                nbrs_len == nbrs@.len(),
                grid.in_bounds(cur),
                discovered(*grid, st, cur),
                st.dist@[grid.spec_idx(cur)] == dcur,
                dcur + 1 < INF,
                forall|j: int|
                    0 <= j < nbrs@.len() ==> grid.in_bounds((#[trigger] nbrs@[j]).1)
                        && crate::algorithms::grid::adjacent(cur, nbrs@[j].1) && nbrs@[j].0
                        == grid.block_at(nbrs@[j].1),
                forall|q: Point|
                    grid.in_bounds(q) && #[trigger] crate::algorithms::grid::adjacent(cur, q)
                        ==> exists|j: int| 0 <= j < nbrs@.len() && (#[trigger] nbrs@[j]).1 == q,
                forall|j: int|
                    0 <= j < i ==> ((#[trigger] nbrs@[j]).0 == GridBlock::Obstacle || discovered(
                        *grid,
                        st,
                        nbrs@[j].1,
                    )),
                forall|k: int|
                    0 <= k < stack@.len() ==> grid.in_bounds(#[trigger] stack@[k]) && discovered(
                        *grid,
                        st,
                        stack@[k],
                    ),
                forall|p: Point|
                    grid.in_bounds(p) && discovered(*grid, st, p) && !stack@.contains(p) && p
                        != cur ==> #[trigger] expanded(*grid, st, p),
                count_finite(st.dist@) >= count_finite(st_iter.dist@),
                count_finite(st.dist@) > count_finite(st_iter.dist@) || stack@.len()
                    < stack_iter.len(),
        {
            let pair = nbrs[i];
            let nb = pair.0;
            let nq = pair.1;
            if !(nb == GridBlock::Obstacle) {
                let ni = grid.index_of(&nq);
                if !st.visited[ni] {
                    let ghost st_pre = st;
                    let ghost stack_pre = stack@;
                    let changed = relax_edge(grid, Ghost(*start), &mut st, &cur, &nq);
                    assert(changed);
                    stack.push(nq);
                    proof {
                        assert forall|p: Point|
                            grid.in_bounds(p) && discovered(*grid, st, p) && !stack@.contains(p)
                                && p != cur implies #[trigger] expanded(*grid, st, p) by {
                            assert(stack@[stack@.len() - 1] == nq);
                            assert(p != nq);
                            assert(discovered(*grid, st_pre, p));
                            assert(!stack_pre.contains(p)) by {
                                if stack_pre.contains(p) {
                                    let k = choose|k: int|
                                        0 <= k < stack_pre.len() && stack_pre[k] == p;
                                    assert(stack@[k] == p);
                                }
                            }
                            assert(expanded(*grid, st_pre, p));
                            assert forall|q: Point|
                                grid.in_bounds(q) && #[trigger] crate::algorithms::grid::adjacent(
                                    p,
                                    q,
                                ) && grid.block_at(q) != GridBlock::Obstacle implies discovered(
                                *grid,
                                st,
                                q,
                            ) by {
                                assert(discovered(*grid, st_pre, q));
                                assert(q != nq);
                            }
                        }
                    }
                }
            }
        }
        proof {
            lemma_count_finite_bounds(st.dist@);
            assert(expanded(*grid, st, cur)) by {
                assert forall|q: Point|
                    grid.in_bounds(q) && #[trigger] crate::algorithms::grid::adjacent(cur, q)
                        && grid.block_at(q) != GridBlock::Obstacle implies discovered(
                    *grid,
                    st,
                    q,
                ) by {
                    let j = choose|j: int| 0 <= j < nbrs@.len() && (#[trigger] nbrs@[j]).1 == q;
                    assert(nbrs@[j].0 == grid.block_at(q));
                }
            }
        }
    }
    proof {
        assert forall|p: Point|
            grid.in_bounds(p) && discovered(*grid, st, p) implies #[trigger] expanded(
            *grid,
            st,
            p,
        ) by {
            assert(!stack@.contains(p));
        }
        assert(all_expanded(*grid, st));
    }
    conclude(grid, start, end, &st)
}

} // verus!
