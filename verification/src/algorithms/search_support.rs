use vstd::prelude::*;

use crate::algorithms::grid::adjacent;
use crate::algorithms::grid::is_path;
use crate::algorithms::grid::is_path_between;
use crate::algorithms::grid::lemma_idx_injective;
use crate::algorithms::grid::reachable;
use crate::algorithms::grid::GridMap;
use crate::algorithms::reconstruction::lemma_backtrack_valid;
use crate::algorithms::reconstruction::reconstruct_path;
use crate::algorithms::GridBlock;
use crate::algorithms::Point;
use crate::algorithms::SearchOutcome;

verus! {

/// The sentinel distance of a cell no search has discovered yet.
pub const INF: u32 = u32::MAX;

/// The per-run exploration state: a visited marker, a tentative distance and
/// a predecessor for every cell, each table indexed by the cell's flat index.
pub struct SearchState {
    pub visited: Vec<bool>,
    pub dist: Vec<u32>,
    pub parent: Vec<Option<Point>>,
}

/// How many entries of a distance table are below the sentinel.
pub open spec fn count_finite(d: Seq<u32>) -> int
    decreases d.len(),
{
    if d.len() == 0 {
        0
    } else {
        count_finite(d.drop_last()) + if d.last() < INF {
            1int
        } else {
            0int
        }
    }
}

/// The total of a distance table.
pub open spec fn sum_dist(d: Seq<u32>) -> int
    decreases d.len(),
{
    if d.len() == 0 {
        0
    } else {
        sum_dist(d.drop_last()) + d.last()
    }
}

pub proof fn lemma_count_finite_bounds(d: Seq<u32>)
    ensures
        0 <= count_finite(d) <= d.len(),
    decreases d.len(),
{
    if d.len() > 0 {
        lemma_count_finite_bounds(d.drop_last());
    }
}

pub proof fn lemma_sum_dist_nonneg(d: Seq<u32>)
    ensures
        0 <= sum_dist(d),
    decreases d.len(),
{
    if d.len() > 0 {
        lemma_sum_dist_nonneg(d.drop_last());
    }
}

pub proof fn lemma_count_finite_update(d: Seq<u32>, i: int, v: u32)
    requires
        0 <= i < d.len(),
    ensures
        count_finite(d.update(i, v)) == count_finite(d) + (if v < INF {
            1int
        } else {
            0int
        }) - (if d[i] < INF {
            1int
        } else {
            0int
        }),
    decreases d.len(),
{
    let du = d.update(i, v);
    if i == d.len() - 1 {
        assert(du.drop_last() =~= d.drop_last());
    } else {
        assert(du.drop_last() =~= d.drop_last().update(i, v));
        lemma_count_finite_update(d.drop_last(), i, v);
    }
}

pub proof fn lemma_sum_dist_update(d: Seq<u32>, i: int, v: u32)
    requires
        0 <= i < d.len(),
    ensures
        sum_dist(d.update(i, v)) == sum_dist(d) + v - d[i],
    decreases d.len(),
{
    let du = d.update(i, v);
    if i == d.len() - 1 {
        assert(du.drop_last() =~= d.drop_last());
    } else {
        assert(du.drop_last() =~= d.drop_last().update(i, v));
        lemma_sum_dist_update(d.drop_last(), i, v);
    }
}

/// A distance table whose entries are all at the sentinel counts nothing.
pub proof fn lemma_count_finite_all_inf(d: Seq<u32>)
    requires
        forall|i: int| 0 <= i < d.len() ==> #[trigger] d[i] == INF,
    ensures
        count_finite(d) == 0,
    decreases d.len(),
{
    if d.len() > 0 {
        lemma_count_finite_all_inf(d.drop_last());
    }
}

/// The three tables cover every cell of the grid.
pub open spec fn tables_wf(g: GridMap, st: SearchState) -> bool {
    &&& st.visited@.len() == g.cell_count()
    &&& st.dist@.len() == g.cell_count()
    &&& st.parent@.len() == g.cell_count()
}

/// A cell some search step has reached: its tentative distance is real.
pub open spec fn discovered(g: GridMap, st: SearchState, p: Point) -> bool {
    st.dist@[g.spec_idx(p)] < INF
}

/// A discovered non-start cell's predecessor entry: an adjacent discovered
/// cell that is at least one step closer to the start.
pub open spec fn parent_link(g: GridMap, st: SearchState, p: Point) -> bool {
    st.parent@[g.spec_idx(p)] matches Some(q) && g.in_bounds(q) && adjacent(q, p) && discovered(
        g,
        st,
        q,
    ) && st.dist@[g.spec_idx(q)] + 1 <= st.dist@[g.spec_idx(p)]
}

/// What every search preserves, whatever its frontier discipline.
pub open spec fn search_inv(g: GridMap, s: Point, st: SearchState) -> bool {
    &&& g.wf()
    &&& tables_wf(g, st)
    &&& g.in_bounds(s)
    &&& g.block_at(s) != GridBlock::Obstacle
    &&& st.dist@[g.spec_idx(s)] == 0
    &&& st.parent@[g.spec_idx(s)] is None
    &&& forall|p: Point|
        g.in_bounds(p) ==> (st.visited@[#[trigger] g.spec_idx(p)] <==> discovered(g, st, p))
    &&& forall|p: Point|
        g.in_bounds(p) && discovered(g, st, p) ==> g.block_at(p) != GridBlock::Obstacle
            && st.dist@[#[trigger] g.spec_idx(p)] < count_finite(st.dist@)
    &&& forall|p: Point|
        g.in_bounds(p) && p != s && #[trigger] discovered(g, st, p) ==> parent_link(g, st, p)
}

/// Every free neighbor of `p` has been discovered.
pub open spec fn expanded(g: GridMap, st: SearchState, p: Point) -> bool {
    forall|q: Point|
        g.in_bounds(q) && #[trigger] adjacent(p, q) && g.block_at(q) != GridBlock::Obstacle
            ==> discovered(g, st, q)
}

/// Every free neighbor of `p` has been discovered at a distance at most one
/// step beyond `p`'s.
pub open spec fn relaxed_at(g: GridMap, st: SearchState, p: Point) -> bool {
    forall|q: Point|
        g.in_bounds(q) && #[trigger] adjacent(p, q) && g.block_at(q) != GridBlock::Obstacle
            ==> discovered(g, st, q) && st.dist@[g.spec_idx(q)] <= st.dist@[g.spec_idx(p)] + 1
}

/// The discovered set is closed under adjacency: a finished search can have
/// missed nothing reachable.
pub open spec fn all_expanded(g: GridMap, st: SearchState) -> bool {
    forall|p: Point| g.in_bounds(p) && #[trigger] discovered(g, st, p) ==> expanded(g, st, p)
}

/// Every edge out of a discovered cell is relaxed: tentative distances are a
/// fixed point.
pub open spec fn fully_relaxed(g: GridMap, st: SearchState) -> bool {
    forall|p: Point| g.in_bounds(p) && #[trigger] discovered(g, st, p) ==> relaxed_at(g, st, p)
}

/// Fresh exploration state: only the start is discovered, at distance 0.
pub fn init_search_state(grid: &GridMap, start: &Point) -> (st: SearchState)
    requires
        grid.wf(),
        grid.in_bounds(*start),
        grid.block_at(*start) != GridBlock::Obstacle,
    ensures
        search_inv(*grid, *start, st),
        forall|p: Point|
            grid.in_bounds(p) ==> (#[trigger] discovered(*grid, st, p) <==> p == *start),
        count_finite(st.dist@) == 1,
{
    let n = grid.num_cells();
    let mut visited: Vec<bool> = Vec::new();
    let mut dist: Vec<u32> = Vec::new();
    let mut parent: Vec<Option<Point>> = Vec::new();
    for i in 0..n
        invariant
            visited@.len() == i,
            dist@.len() == i,
            parent@.len() == i,
            forall|j: int| 0 <= j < i ==> #[trigger] visited@[j] == false,
            forall|j: int| 0 <= j < i ==> #[trigger] dist@[j] == INF,
            forall|j: int| 0 <= j < i ==> #[trigger] parent@[j] is None,
    {
        visited.push(false);
        dist.push(INF);
        parent.push(None);
    }
    proof {
        lemma_count_finite_all_inf(dist@);
    }
    let si = grid.index_of(start);
    let ghost d0 = dist@;
    visited.set(si, true);
    dist.set(si, 0);
    let st = SearchState { visited, dist, parent };
    proof {
        lemma_count_finite_update(d0, si as int, 0);
        assert forall|p: Point| grid.in_bounds(p) && p != *start implies grid.spec_idx(p) != grid.spec_idx(
            *start,
        ) by {
            if grid.spec_idx(p) == grid.spec_idx(*start) {
                lemma_idx_injective(*grid, p, *start);
            }
        }
        assert forall|p: Point| grid.in_bounds(p) implies 0 <= grid.spec_idx(p)
            < grid.cell_count() by {
            crate::algorithms::grid::lemma_idx_in_range(*grid, p);
        }
    }
    st
}

/// One relaxation step along the edge `cur -> nq`: when stepping through
/// `cur` improves `nq`'s tentative distance, `nq`'s table entries are
/// rewritten and the step reports a change; otherwise nothing moves.
pub fn relax_edge(
    grid: &GridMap,
    Ghost(s): Ghost<Point>,
    st: &mut SearchState,
    cur: &Point,
    nq: &Point,
) -> (changed: bool)
    requires
        search_inv(*grid, s, *old(st)),
        grid.in_bounds(*cur),
        discovered(*grid, *old(st), *cur),
        grid.in_bounds(*nq),
        adjacent(*cur, *nq),
        grid.block_at(*nq) != GridBlock::Obstacle,
    ensures
        search_inv(*grid, s, *final(st)),
        changed <==> old(st).dist@[grid.spec_idx(*cur)] + 1 < old(st).dist@[grid.spec_idx(*nq)],
        !changed ==> *final(st) == *old(st),
        changed ==> final(st).dist@[grid.spec_idx(*nq)] == old(st).dist@[grid.spec_idx(*cur)] + 1
            && final(st).parent@[grid.spec_idx(*nq)] == Some(*cur)
            && final(st).visited@[grid.spec_idx(*nq)]
            && sum_dist(final(st).dist@) < sum_dist(old(st).dist@)
            && count_finite(final(st).dist@) == count_finite(old(st).dist@) + (
            if discovered(*grid, *old(st), *nq) {
                0int
            } else {
                1int
            }),
        forall|p: Point|
            grid.in_bounds(p) && p != *nq ==> final(st).dist@[#[trigger] grid.spec_idx(p)] == old(
                st,
            ).dist@[grid.spec_idx(p)] && final(st).parent@[grid.spec_idx(p)]
                == old(st).parent@[grid.spec_idx(p)] && final(st).visited@[grid.spec_idx(p)]
                == old(st).visited@[grid.spec_idx(p)],
        final(st).dist@[grid.spec_idx(*nq)] <= old(st).dist@[grid.spec_idx(*cur)] + 1,
        discovered(*grid, *final(st), *nq),
        sum_dist(final(st).dist@) <= sum_dist(old(st).dist@),
        count_finite(final(st).dist@) >= count_finite(old(st).dist@),
{
    let ci = grid.index_of(cur);
    let ni = grid.index_of(nq);
    proof {
        assert forall|p: Point, q: Point|
            grid.in_bounds(p) && grid.in_bounds(q) && p != q implies #[trigger] grid.spec_idx(p)
            != #[trigger] grid.spec_idx(q) by {
            if grid.spec_idx(p) == grid.spec_idx(q) {
                lemma_idx_injective(*grid, p, q);
            }
        }
        assert forall|p: Point| grid.in_bounds(p) implies 0 <= #[trigger] grid.spec_idx(p)
            < grid.cell_count() by {
            crate::algorithms::grid::lemma_idx_in_range(*grid, p);
        }
    }
    proof {
        lemma_count_finite_bounds(st.dist@);
        assert((grid.size.width as int) * (grid.size.height as int) <= 10000) by (nonlinear_arith)
            requires
                grid.size.width <= 100,
                grid.size.height <= 100,
        ;
    }
    let dc = st.dist[ci];
    let dn = st.dist[ni];
    if dc + 1 < dn {
        let ghost dist0 = st.dist@;
        st.visited.set(ni, true);
        st.dist.set(ni, dc + 1);
        st.parent.set(ni, Some(*cur));
        proof {
            lemma_count_finite_update(dist0, ni as int, (dc + 1) as u32);
            lemma_sum_dist_update(dist0, ni as int, (dc + 1) as u32);
            assert(*nq != s);
            assert forall|p: Point|
                grid.in_bounds(p) && p != s && discovered(*grid, *st, p) implies parent_link(
                *grid,
                *st,
                p,
            ) by {
                if p == *nq {
                    assert(st.parent@[grid.spec_idx(p)] == Some(*cur));
                } else {
                    assert(parent_link(*grid, *old(st), p));
                }
            }
        }
        true
    } else {
        false
    }
}

/// Along any obstacle-free walk out of a discovered cell, a closed search
/// state has discovered every cell.
pub proof fn lemma_discovered_along_path(g: GridMap, st: SearchState, p: Seq<Point>)
    requires
        is_path(g, p),
        discovered(g, st, p[0]),
        all_expanded(g, st),
    ensures
        discovered(g, st, p[p.len() - 1]),
    decreases p.len(),
{
    if p.len() > 1 {
        let pre = p.drop_last();
        assert(is_path(g, pre)) by {
            assert forall|i: int| 0 <= i < pre.len() implies g.in_bounds(#[trigger] pre[i])
                && g.block_at(pre[i]) != GridBlock::Obstacle by {
                assert(pre[i] == p[i]);
            }
            assert forall|i: int| 0 <= i < pre.len() - 1 implies adjacent(
                #[trigger] pre[i],
                pre[i + 1],
            ) by {
                assert(pre[i] == p[i] && pre[i + 1] == p[i + 1]);
            }
        }
        lemma_discovered_along_path(g, st, pre);
        let a = p[p.len() - 2];
        let b = p[p.len() - 1];
        assert(adjacent(a, b));
        assert(expanded(g, st, a));
    }
}

/// A search state that is closed under adjacency and has not discovered `e`
/// witnesses that `e` is unreachable from `s`.
pub proof fn lemma_unreachable_when_closed(g: GridMap, st: SearchState, s: Point, e: Point)
    requires
        discovered(g, st, s),
        !discovered(g, st, e),
        all_expanded(g, st),
    ensures
        !reachable(g, s, e),
{
    if reachable(g, s, e) {
        let p = choose|p: Seq<Point>| is_path_between(g, s, e, p);
        lemma_discovered_along_path(g, st, p);
    }
}

/// At a relaxation fixed point, the tentative distance of a walk's last cell
/// is bounded by the walk's edge count above its first cell's distance.
pub proof fn lemma_dist_lower_bound(g: GridMap, st: SearchState, p: Seq<Point>)
    requires
        is_path(g, p),
        discovered(g, st, p[0]),
        fully_relaxed(g, st),
    ensures
        discovered(g, st, p[p.len() - 1]),
        st.dist@[g.spec_idx(p[p.len() - 1])] <= st.dist@[g.spec_idx(p[0])] + p.len() - 1,
    decreases p.len(),
{
    if p.len() > 1 {
        let pre = p.drop_last();
        assert(is_path(g, pre)) by {
            assert forall|i: int| 0 <= i < pre.len() implies g.in_bounds(#[trigger] pre[i])
                && g.block_at(pre[i]) != GridBlock::Obstacle by {
                assert(pre[i] == p[i]);
            }
            assert forall|i: int| 0 <= i < pre.len() - 1 implies adjacent(
                #[trigger] pre[i],
                pre[i + 1],
            ) by {
                assert(pre[i] == p[i] && pre[i + 1] == p[i + 1]);
            }
        }
        lemma_dist_lower_bound(g, st, pre);
        let a = p[p.len() - 2];
        let b = p[p.len() - 1];
        assert(adjacent(a, b));
        assert(relaxed_at(g, st, a));
    }
}

/// What every variant promises of its outcome: the verdict matches
/// reachability exactly, and a found route is a simple obstacle-free
/// adjacent walk from start to end whose reported cost is its edge count.
pub open spec fn search_outcome_ok(g: GridMap, s: Point, e: Point, r: SearchOutcome) -> bool {
    &&& r.found <==> reachable(g, s, e)
    &&& r.found ==> is_path_between(g, s, e, r.path@) && r.path@.len() >= 2 && r.cost == r.path@.len()
        - 1 && (forall|i: int, j: int| 0 <= i < j < r.path@.len() ==> r.path@[i] != r.path@[j])
    &&& !r.found ==> r.path@.len() == 0 && r.cost == 0
}

/// The optimality promise: no route between the endpoints has fewer edges
/// than the reported cost.
pub open spec fn search_outcome_optimal(g: GridMap, s: Point, e: Point, r: SearchOutcome) -> bool {
    r.found ==> forall|q: Seq<Point>| is_path_between(g, s, e, q) ==> r.cost <= q.len() - 1
}

/// The shared final step of every search: decide the verdict from the
/// end cell's table entry, rebuild the route on success, and never fabricate
/// one on failure. When the tables are also a relaxation fixed point, the
/// rebuilt route is as short as any.
pub fn conclude(grid: &GridMap, start: &Point, end: &Point, st: &SearchState) -> (r: SearchOutcome)
    requires
        search_inv(*grid, *start, *st),
        grid.in_bounds(*end),
        *start != *end,
        all_expanded(*grid, *st),
    ensures
        search_outcome_ok(*grid, *start, *end, r),
        fully_relaxed(*grid, *st) ==> search_outcome_optimal(*grid, *start, *end, r),
{
    let ei = grid.index_of(end);
    proof {
        lemma_count_finite_bounds(st.dist@);
    }
    if st.dist[ei] < INF {
        let res = reconstruct_path(grid, &st.parent, start, end);
        proof {
            lemma_backtrack_valid(*grid, *st, *start, *end, grid.cell_count() as nat);
        }
        match res {
            Ok(path) => {
                let ghost de = st.dist@[grid.spec_idx(*end)];
                assert(path@.len() - 1 <= de);
                let cost = (path.len() - 1) as u32;
                proof {
                    assert(reachable(*grid, *start, *end)) by {
                        assert(is_path_between(*grid, *start, *end, path@));
                    }
                    if fully_relaxed(*grid, *st) {
                        assert forall|q: Seq<Point>|
                            is_path_between(*grid, *start, *end, q) implies cost <= q.len()
                            - 1 by {
                            lemma_dist_lower_bound(*grid, *st, q);
                        }
                    }
                }
                SearchOutcome { found: true, path, cost }
            },
            Err(_) => {
                proof {
                    assert(false);
                }
                SearchOutcome { found: false, path: Vec::new(), cost: 0 }
            },
        }
    } else {
        proof {
            lemma_unreachable_when_closed(*grid, *st, *start, *end);
        }
        SearchOutcome { found: false, path: Vec::new(), cost: 0 }
    }
}

/// Whether the frontier already holds a cell.
pub fn frontier_contains(open: &Vec<Point>, p: &Point) -> (r: bool)
    ensures
        r == open@.contains(*p),
{
    let mut k: usize = 0;
    while k < open.len()
        invariant
            k <= open@.len(),
            forall|j: int| 0 <= j < k ==> open@[j] != *p,
        decreases open@.len() - k,
    {
        if open[k] == *p {
            proof {
                assert(open@[k as int] == *p);
            }
            return true;
        }
        k = k + 1;
    }
    proof {
        assert(!open@.contains(*p)) by {
            if open@.contains(*p) {
                let j = choose|j: int| 0 <= j < open@.len() && open@[j] == *p;
            }
        }
    }
    false
}

/// All algorithms agree on reachability: any two outcomes that meet the
/// common outcome contract for the same grid and endpoints carry the same
/// verdict, and that verdict is reachability itself — no false positives,
/// no false negatives.
pub proof fn lemma_algorithms_agree(
    g: GridMap,
    s: Point,
    e: Point,
    r1: SearchOutcome,
    r2: SearchOutcome,
)
    requires
        search_outcome_ok(g, s, e, r1),
        search_outcome_ok(g, s, e, r2),
    ensures
        r1.found == r2.found,
        r1.found == reachable(g, s, e),
{
}

/// Optimal searches agree on path length: any two outcomes that meet the
/// common contract together with the optimality promise, for the same grid
/// and endpoints, report the same cost.
pub proof fn lemma_optimal_costs_agree(
    g: GridMap,
    s: Point,
    e: Point,
    r1: SearchOutcome,
    r2: SearchOutcome,
)
    requires
        search_outcome_ok(g, s, e, r1),
        search_outcome_ok(g, s, e, r2),
        search_outcome_optimal(g, s, e, r1),
        search_outcome_optimal(g, s, e, r2),
    ensures
        r1.found == r2.found,
        r1.found ==> r1.cost == r2.cost,
{
    if r1.found {
        assert(is_path_between(g, s, e, r2.path@));
        assert(r1.cost <= r2.path@.len() - 1);
        assert(is_path_between(g, s, e, r1.path@));
        assert(r2.cost <= r1.path@.len() - 1);
    }
}

} // verus!
