use vstd::prelude::*;

use crate::algorithms::grid::endpoints_ok;
use crate::algorithms::grid::GridMap;
use crate::algorithms::search_support::all_expanded;
use crate::algorithms::search_support::conclude;
use crate::algorithms::search_support::discovered;
use crate::algorithms::search_support::expanded;
use crate::algorithms::search_support::fully_relaxed;
use crate::algorithms::search_support::init_search_state;
use crate::algorithms::search_support::lemma_sum_dist_nonneg;
use crate::algorithms::search_support::relax_edge;
use crate::algorithms::search_support::relaxed_at;
use crate::algorithms::search_support::search_inv;
use crate::algorithms::search_support::search_outcome_ok;
use crate::algorithms::search_support::search_outcome_optimal;
use crate::algorithms::search_support::sum_dist;
use crate::algorithms::search_support::INF;
use crate::algorithms::GridBlock;
use crate::algorithms::Point;
use crate::algorithms::SearchOutcome;

verus! {

/// Bellman-Ford: no frontier at all — whole sweeps relax every edge out of
/// every discovered cell, and sweeps repeat until one changes nothing. Every
/// step cost is the positive unit, so the total of the distance table falls
/// with each changing sweep and the passes converge, within the classic
/// cell-count pass budget, to a fixed point; the route read off it has as
/// few edges as any.
pub fn run(grid: &GridMap, start: &Point, end: &Point) -> (r: SearchOutcome)
    requires
        grid.wf(),
        endpoints_ok(*grid, *start, *end),
    ensures
        search_outcome_ok(*grid, *start, *end, r),
        search_outcome_optimal(*grid, *start, *end, r),
{
    let mut st = init_search_state(grid, start);
    let w = grid.size.width;
    let h = grid.size.height;
    let mut changed = true;
    while changed
        invariant
            grid.wf(),
            endpoints_ok(*grid, *start, *end),
            search_inv(*grid, *start, st),
            w == grid.size.width,
            h == grid.size.height,
            !changed ==> fully_relaxed(*grid, st),
        decreases sum_dist(st.dist@), (if changed {
            1int
        } else {
            0int
        }),
    {
        let ghost st_pass = st;
        changed = false;
        for y in 0..h
            invariant
                grid.wf(),
                endpoints_ok(*grid, *start, *end),
                search_inv(*grid, *start, st),
                w == grid.size.width,
                h == grid.size.height,
                sum_dist(st.dist@) <= sum_dist(st_pass.dist@),
                changed ==> sum_dist(st.dist@) < sum_dist(st_pass.dist@),
                !changed ==> st == st_pass,
                !changed ==> forall|p: Point|
                    grid.in_bounds(p) && p.y < y && discovered(*grid, st, p)
                        ==> #[trigger] relaxed_at(*grid, st, p),
        {
            for x in 0..w
                invariant
                    grid.wf(),
                    endpoints_ok(*grid, *start, *end),
                    search_inv(*grid, *start, st),
                    w == grid.size.width,
                    h == grid.size.height,
                    y < h,
                    sum_dist(st.dist@) <= sum_dist(st_pass.dist@),
                    changed ==> sum_dist(st.dist@) < sum_dist(st_pass.dist@),
                    !changed ==> st == st_pass,
                    !changed ==> forall|p: Point|
                        grid.in_bounds(p) && (p.y < y || (p.y == y && p.x < x)) && discovered(
                            *grid,
                            st,
                            p,
                        ) ==> #[trigger] relaxed_at(*grid, st, p),
            {
                let p = Point::new(x, y);
                let pi = grid.index_of(&p);
                if st.dist[pi] < INF {
                    let ghost dp = st.dist@[grid.spec_idx(p)];
                    let nbrs = grid.get_surrounding_blocks(&p);
                    let nbrs_len = nbrs.len();
                    for i in 0..nbrs_len
                        invariant
                            grid.wf(),
                            endpoints_ok(*grid, *start, *end),
                            search_inv(*grid, *start, st),
                            w == grid.size.width,
                            h == grid.size.height,
                            p == (Point { x, y }),
                            x < w,
                            y < h,
                            grid.in_bounds(p),
                            discovered(*grid, st, p),
                            st.dist@[grid.spec_idx(p)] == dp,
                            nbrs_len == nbrs@.len(),
                            forall|j: int|
                                0 <= j < nbrs@.len() ==> grid.in_bounds((#[trigger] nbrs@[j]).1)
                                    && crate::algorithms::grid::adjacent(p, nbrs@[j].1)
                                    && nbrs@[j].0 == grid.block_at(nbrs@[j].1),
                            forall|q: Point|
                                grid.in_bounds(q) && #[trigger] crate::algorithms::grid::adjacent(
                                    p,
                                    q,
                                ) ==> exists|j: int|
                                    0 <= j < nbrs@.len() && (#[trigger] nbrs@[j]).1 == q,
                            forall|j: int|
                                0 <= j < i ==> ((#[trigger] nbrs@[j]).0 == GridBlock::Obstacle || (
                                discovered(*grid, st, nbrs@[j].1) && st.dist@[grid.spec_idx(
                                    nbrs@[j].1,
                                )] <= dp + 1)),
                            sum_dist(st.dist@) <= sum_dist(st_pass.dist@),
                            changed ==> sum_dist(st.dist@) < sum_dist(st_pass.dist@),
                            !changed ==> st == st_pass,
                            !changed ==> forall|q: Point|
                                grid.in_bounds(q) && (q.y < y || (q.y == y && q.x < x))
                                    && discovered(*grid, st, q) ==> #[trigger] relaxed_at(
                                    *grid,
                                    st,
                                    q,
                                ),
                    {
                        let pair = nbrs[i];
                        let nb = pair.0;
                        let nq = pair.1;
                        if !(nb == GridBlock::Obstacle) {
                            let ch = relax_edge(grid, Ghost(*start), &mut st, &p, &nq);
                            if ch {
                                changed = true;
                            }
                        }
                    }
                    proof {
                        if !changed {
                            assert(relaxed_at(*grid, st, p)) by {
                                assert forall|q: Point|
                                    grid.in_bounds(q)
                                        && #[trigger] crate::algorithms::grid::adjacent(p, q)
                                        && grid.block_at(q) != GridBlock::Obstacle implies
                                    discovered(*grid, st, q) && st.dist@[grid.spec_idx(q)]
                                    <= st.dist@[grid.spec_idx(p)] + 1 by {
                                    let j = choose|j: int|
                                        0 <= j < nbrs@.len() && (#[trigger] nbrs@[j]).1 == q;
                                    assert(nbrs@[j].0 == grid.block_at(q));
                                }
                            }
                        }
                    }
                }
            }
        }
        proof {
            lemma_sum_dist_nonneg(st.dist@);
            if !changed {
                assert forall|p: Point|
                    grid.in_bounds(p) && discovered(*grid, st, p) implies #[trigger] relaxed_at(
                    *grid,
                    st,
                    p,
                ) by {
                    assert(p.y < h);
                }
                assert(fully_relaxed(*grid, st));
            }
        }
    }
    proof {
        assert forall|p: Point|
            grid.in_bounds(p) && discovered(*grid, st, p) implies #[trigger] expanded(
            *grid,
            st,
            p,
        ) by {
            assert(relaxed_at(*grid, st, p));
        }
        assert(all_expanded(*grid, st));
    }
    conclude(grid, start, end, &st)
}

} // verus!
