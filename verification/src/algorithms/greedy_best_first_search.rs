use vstd::prelude::*;

use crate::algorithms::a_star::heuristic;
use crate::algorithms::a_star::spec_manhattan;
use crate::algorithms::grid::endpoints_ok;
use crate::algorithms::grid::GridMap;
use crate::algorithms::search_support::all_expanded;
use crate::algorithms::search_support::conclude;
use crate::algorithms::search_support::count_finite;
use crate::algorithms::search_support::discovered;
use crate::algorithms::search_support::expanded;
use crate::algorithms::search_support::init_search_state;
use crate::algorithms::search_support::lemma_count_finite_bounds;
use crate::algorithms::search_support::relax_edge;
use crate::algorithms::search_support::search_inv;
use crate::algorithms::search_support::search_outcome_ok;
use crate::algorithms::search_support::INF;
use crate::algorithms::GridBlock;
use crate::algorithms::Point;
use crate::algorithms::SearchOutcome;

verus! {

/// The frontier position whose cell the heuristic scores closest to the
/// goal; the strict comparison keeps the earliest insertion on ties.
fn closest_to_goal(open: &Vec<Point>, goal: &Point) -> (best: usize)
    requires
        open@.len() > 0,
    ensures
        best < open@.len(),
        forall|k: int|
            0 <= k < open@.len() ==> spec_manhattan(open@[best as int], *goal) <= spec_manhattan(
                #[trigger] open@[k],
                *goal,
            ),
{
    let mut best: usize = 0;
    let mut score = heuristic(&open[0], goal);
    let open_len = open.len();
    for k in 1..open_len
        invariant
            open_len == open@.len(),
            open@.len() > 0,
            best < k,
            score == spec_manhattan(open@[best as int], *goal),
            forall|j: int|
                0 <= j < k ==> spec_manhattan(open@[best as int], *goal) <= spec_manhattan(
                    #[trigger] open@[j],
                    *goal,
                ),
    {
        let s = heuristic(&open[k], goal);
        if s < score {
            best = k;
            score = s;
        }
    }
    best
}

/// Greedy best-first search: the frontier cell the heuristic scores closest
/// to the goal is expanded next, each cell discovered once. The verdict
/// matches reachability, but the route it finds need not be a shortest one:
/// the accumulated cost is ignored.
pub fn run(grid: &GridMap, start: &Point, end: &Point) -> (r: SearchOutcome)
    requires
        grid.wf(),
        endpoints_ok(*grid, *start, *end),
    ensures
        search_outcome_ok(*grid, *start, *end, r),
{
    let mut st = init_search_state(grid, start);
    let mut open: Vec<Point> = Vec::new();
    open.push(*start);
    proof {
        assert(open@[0] == *start);
    }
    while open.len() > 0
        invariant
            grid.wf(),
            endpoints_ok(*grid, *start, *end),
            search_inv(*grid, *start, st),
            forall|k: int|
                0 <= k < open@.len() ==> grid.in_bounds(#[trigger] open@[k]) && discovered(
                    *grid,
                    st,
                    open@[k],
                ),
            forall|p: Point|
                grid.in_bounds(p) && discovered(*grid, st, p) && !open@.contains(p)
                    ==> #[trigger] expanded(*grid, st, p),
        decreases grid.cell_count() - count_finite(st.dist@), open@.len(),
    {
        proof {
            lemma_count_finite_bounds(st.dist@);
            assert(grid.cell_count() <= 10000) by (nonlinear_arith)
                requires
                    grid.size.width <= 100,
                    grid.size.height <= 100,
            ;
        }
        let ghost st_iter = st;
        let ghost open_iter = open@;
        let best = closest_to_goal(&open, end);
        let cur = open.remove(best);
        proof {
            assert forall|p: Point| open_iter.contains(p) && p != cur implies open@.contains(
                p,
            ) by {
                let k = choose|k: int| 0 <= k < open_iter.len() && open_iter[k] == p;
                if k < best {
                    assert(open@[k] == p);
                } else {
                    assert(open@[k - 1] == p);
                }
            }
        }
        let ghost dcur = st.dist@[grid.spec_idx(cur)];
        let nbrs = grid.get_surrounding_blocks(&cur);
        let nbrs_len = nbrs.len();
        for i in 0..nbrs_len
            invariant
                grid.wf(),
                endpoints_ok(*grid, *start, *end),
                search_inv(*grid, *start, st),
                nbrs_len == nbrs@.len(),
                grid.in_bounds(cur),
                discovered(*grid, st, cur),
                st.dist@[grid.spec_idx(cur)] == dcur,
                dcur + 1 < INF,
                forall|j: int|
                    0 <= j < nbrs@.len() ==> grid.in_bounds((#[trigger] nbrs@[j]).1)
                        && crate::algorithms::grid::adjacent(cur, nbrs@[j].1) && nbrs@[j].0
                        == grid.block_at(nbrs@[j].1),
                forall|q: Point|
                    grid.in_bounds(q) && #[trigger] crate::algorithms::grid::adjacent(cur, q)
                        ==> exists|j: int| 0 <= j < nbrs@.len() && (#[trigger] nbrs@[j]).1 == q,
                forall|j: int|
                    0 <= j < i ==> ((#[trigger] nbrs@[j]).0 == GridBlock::Obstacle || discovered(
                        *grid,
                        st,
                        nbrs@[j].1,
                    )),
                forall|k: int|
                    0 <= k < open@.len() ==> grid.in_bounds(#[trigger] open@[k]) && discovered(
                        *grid,
                        st,
                        open@[k],
                    ),
                forall|p: Point|
                    grid.in_bounds(p) && discovered(*grid, st, p) && !open@.contains(p) && p != cur
                        ==> #[trigger] expanded(*grid, st, p),
                count_finite(st.dist@) >= count_finite(st_iter.dist@),
                count_finite(st.dist@) > count_finite(st_iter.dist@) || open@.len()
                    < open_iter.len(),
        {
            let pair = nbrs[i];
            let nb = pair.0;
            let nq = pair.1;
            if !(nb == GridBlock::Obstacle) {
                let ni = grid.index_of(&nq);
                if !st.visited[ni] {
                    let ghost st_pre = st;
                    let ghost open_pre = open@;
                    let changed = relax_edge(grid, Ghost(*start), &mut st, &cur, &nq);
                    assert(changed);
                    open.push(nq);
                    proof {
                        assert forall|p: Point|
                            grid.in_bounds(p) && discovered(*grid, st, p) && !open@.contains(p)
                                && p != cur implies #[trigger] expanded(*grid, st, p) by {
                            assert(open@[open@.len() - 1] == nq);
                            assert(p != nq);
                            assert(discovered(*grid, st_pre, p));
                            assert(!open_pre.contains(p)) by {
                                if open_pre.contains(p) {
                                    let k = choose|k: int|
                                        0 <= k < open_pre.len() && open_pre[k] == p;
                                    assert(open@[k] == p);
                                }
                            }
                            assert(expanded(*grid, st_pre, p));
                            assert forall|q: Point|
                                grid.in_bounds(q) && #[trigger] crate::algorithms::grid::adjacent(
                                    p,
                                    q,
                                ) && grid.block_at(q) != GridBlock::Obstacle implies discovered(
                                *grid,
                                st,
                                q,
                            ) by {
                                assert(discovered(*grid, st_pre, q));
                                assert(q != nq);
                            }
                        }
                    }
                }
            }
        }
        proof {
            lemma_count_finite_bounds(st.dist@);
            assert(expanded(*grid, st, cur)) by {
                assert forall|q: Point|
                    grid.in_bounds(q) && #[trigger] crate::algorithms::grid::adjacent(cur, q)
                        && grid.block_at(q) != GridBlock::Obstacle implies discovered(
                    *grid,
                    st,
                    q,
                ) by {
                    let j = choose|j: int| 0 <= j < nbrs@.len() && (#[trigger] nbrs@[j]).1 == q;
                    assert(nbrs@[j].0 == grid.block_at(q));
                }
            }
        }
    }
    proof {
        assert forall|p: Point|
            grid.in_bounds(p) && discovered(*grid, st, p) implies #[trigger] expanded(
            *grid,
            st,
            p,
        ) by {
            assert(!open@.contains(p));
        }
        assert(all_expanded(*grid, st));
    }
    conclude(grid, start, end, &st)
}

} // verus!
