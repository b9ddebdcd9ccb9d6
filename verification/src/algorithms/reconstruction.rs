use vstd::prelude::*;

use crate::algorithms::grid::is_path_between;
use crate::algorithms::grid::GridMap;
use crate::algorithms::search_support::discovered;
use crate::algorithms::search_support::parent_link;
use crate::algorithms::search_support::search_inv;
use crate::algorithms::search_support::SearchState;
use crate::algorithms::Point;

verus! {

/// Failures of the backward predecessor walk: an entry missing before the
/// start was reached, or a walk that runs longer than the cell count ever
/// allows, which only a cycle can cause.
#[derive(Clone, Copy, Debug, PartialEq, Eq, Structural)]
pub enum ReconstructionError {
    MissingPredecessor,
    CycleDetected,
}

/// The backward walk through a predecessor table, written as a function:
/// from `cur`, follow predecessors until `s`, spending one unit of fuel per
/// step, and give back the walk in start-to-end order.
pub open spec fn spec_backtrack(
    g: GridMap,
    parent: Seq<Option<Point>>,
    s: Point,
    cur: Point,
    fuel: nat,
) -> Result<Seq<Point>, ReconstructionError>
    decreases fuel,
{
    if cur == s {
        Ok(seq![s])
    } else if fuel == 0 {
        Err(ReconstructionError::CycleDetected)
    } else {
        match parent[g.spec_idx(cur)] {
            None => Err(ReconstructionError::MissingPredecessor),
            Some(q) => if !g.in_bounds(q) {
                Err(ReconstructionError::MissingPredecessor)
            } else {
                match spec_backtrack(g, parent, s, q, (fuel - 1) as nat) {
                    Err(e) => Err(e),
                    Ok(w) => Ok(w.push(cur)),
                }
            },
        }
    }
}

/// What reconstruction computes: the backward walk from `e`, with fuel for
/// as many steps as the grid has cells.
pub open spec fn spec_reconstruct_path(
    g: GridMap,
    parent: Seq<Option<Point>>,
    s: Point,
    e: Point,
) -> Result<Seq<Point>, ReconstructionError> {
    spec_backtrack(g, parent, s, e, g.cell_count() as nat)
}

/// Walks the predecessor table backwards from `end` until `start` is
/// reached, then returns the cells in start-to-end order. The result is a
/// function of the inputs alone — `spec_reconstruct_path` — so repeated
/// runs on the same table return the same sequence. A table entry that is
/// absent or out of bounds fails with `MissingPredecessor`; a walk that
/// outlives the cell count fails with `CycleDetected`.
pub fn reconstruct_path(
    grid: &GridMap,
    parent: &Vec<Option<Point>>,
    start: &Point,
    end: &Point,
) -> (r: Result<Vec<Point>, ReconstructionError>)
    requires
        grid.wf(),
        parent@.len() == grid.cell_count(),
        grid.in_bounds(*start),
        grid.in_bounds(*end),
    ensures
        match r {
            Ok(v) => spec_reconstruct_path(*grid, parent@, *start, *end) == Ok::<
                Seq<Point>,
                ReconstructionError,
            >(v@),
            Err(e) => spec_reconstruct_path(*grid, parent@, *start, *end) == Err::<
                Seq<Point>,
                ReconstructionError,
            >(e),
        },
{
    let ghost full = spec_reconstruct_path(*grid, parent@, *start, *end);
    let mut acc: Vec<Point> = Vec::new();
    acc.push(*end);
    let ghost mut suf: Seq<Point> = Seq::empty();
    let mut cur: Point = *end;
    let mut fuel: usize = grid.num_cells();
    while !(cur == *start)
        invariant
            grid.wf(),
            parent@.len() == grid.cell_count(),
            grid.in_bounds(*start),
            grid.in_bounds(cur),
            full == spec_reconstruct_path(*grid, parent@, *start, *end),
            acc@.len() >= 1,
            acc@[acc@.len() - 1] == cur,
            suf.len() == acc@.len() - 1,
            forall|i: int| 0 <= i < suf.len() ==> #[trigger] suf[i] == acc@[acc@.len() - 2 - i],
            full == match spec_backtrack(*grid, parent@, *start, cur, fuel as nat) {
                Ok(w) => Ok::<Seq<Point>, ReconstructionError>(w + suf),
                Err(e) => Err::<Seq<Point>, ReconstructionError>(e),
            },
        decreases fuel,
    {
        if fuel == 0 {
            return Err(ReconstructionError::CycleDetected);
        }
        let ci = grid.index_of(&cur);
        match parent[ci] {
            None => {
                return Err(ReconstructionError::MissingPredecessor);
            },
            Some(q) => {
                if !(q.x < grid.size.width && q.y < grid.size.height) {
                    return Err(ReconstructionError::MissingPredecessor);
                }
                proof {
                    let rec = spec_backtrack(*grid, parent@, *start, q, (fuel - 1) as nat);
                    if rec is Ok {
                        assert(rec->Ok_0.push(cur) + suf =~= rec->Ok_0 + (seq![cur] + suf));
                    }
                    suf = seq![cur] + suf;
                }
                acc.push(q);
                cur = q;
                fuel = fuel - 1;
            },
        }
    }
    let mut out: Vec<Point> = Vec::new();
    let m = acc.len();
    for i in 0..m
        invariant
            m == acc@.len(),
            out@.len() == i,
            forall|j: int| 0 <= j < i ==> #[trigger] out@[j] == acc@[m - 1 - j],
    {
        out.push(acc[m - 1 - i]);
    }
    proof {
        assert(out@ =~= seq![*start] + suf);
    }
    Ok(out)
}

/// Under the search invariant, the backward walk from any discovered cell
/// succeeds, yields an obstacle-free adjacent walk from the start to that
/// cell whose cells strictly gain distance — so never repeat — and spends
/// at most the cell's tentative distance in steps.
pub proof fn lemma_backtrack_valid(g: GridMap, st: SearchState, s: Point, e: Point, fuel: nat)
    requires
        search_inv(g, s, st),
        g.in_bounds(e),
        discovered(g, st, e),
        st.dist@[g.spec_idx(e)] <= fuel,
    ensures
        spec_backtrack(g, st.parent@, s, e, fuel) matches Ok(w) && is_path_between(g, s, e, w)
            && w.len() >= 1 && w.len() - 1 <= st.dist@[g.spec_idx(e)] && (forall|i: int, j: int|
            0 <= i < j < w.len() ==> st.dist@[g.spec_idx(#[trigger] w[i])] < st.dist@[g.spec_idx(
                #[trigger] w[j],
            )]) && (forall|i: int, j: int| 0 <= i < j < w.len() ==> w[i] != w[j]),
    decreases st.dist@[g.spec_idx(e)],
{
    if e == s {
        let w = spec_backtrack(g, st.parent@, s, e, fuel)->Ok_0;
        assert(w =~= seq![s]);
    } else {
        assert(parent_link(g, st, e));
        let q = st.parent@[g.spec_idx(e)]->0;
        assert(st.dist@[g.spec_idx(q)] < st.dist@[g.spec_idx(e)]);
        assert(fuel >= 1);
        lemma_backtrack_valid(g, st, s, q, (fuel - 1) as nat);
        let w0 = spec_backtrack(g, st.parent@, s, q, (fuel - 1) as nat)->Ok_0;
        let w = w0.push(e);
        assert(spec_backtrack(g, st.parent@, s, e, fuel) == Ok::<Seq<Point>, ReconstructionError>(
            w,
        ));
        assert(w[w.len() - 1] == e);
        assert(forall|i: int| 0 <= i < w0.len() ==> #[trigger] w[i] == w0[i]);
        assert forall|i: int, j: int| 0 <= i < j < w.len() implies st.dist@[g.spec_idx(
            #[trigger] w[i],
        )] < st.dist@[g.spec_idx(#[trigger] w[j])] by {
            if j < w.len() - 1 {
                assert(st.dist@[g.spec_idx(w0[i])] < st.dist@[g.spec_idx(w0[j])]);
            } else {
                if i < w0.len() - 1 {
                    assert(st.dist@[g.spec_idx(w0[i])] < st.dist@[g.spec_idx(w0[w0.len() - 1])]);
                }
                assert(st.dist@[g.spec_idx(q)] < st.dist@[g.spec_idx(e)]);
            }
        }
        assert forall|i: int, j: int| 0 <= i < j < w.len() implies w[i] != w[j] by {
            if w[i] == w[j] {
                assert(st.dist@[g.spec_idx(w[i])] < st.dist@[g.spec_idx(w[j])]);
            }
        }
        assert(is_path_between(g, s, e, w)) by {
            assert(w[0] == w0[0]);
        }
    }
}

/// Reconstruction is a function of the grid dimensions, the predecessor
/// table and the endpoints alone, so repeated runs on the same table give
/// identical ordered sequences.
pub proof fn lemma_reconstruction_deterministic(
    g: GridMap,
    parent: Seq<Option<Point>>,
    s: Point,
    e: Point,
    r1: Result<Seq<Point>, ReconstructionError>,
    r2: Result<Seq<Point>, ReconstructionError>,
)
    requires
        r1 == spec_reconstruct_path(g, parent, s, e),
        r2 == spec_reconstruct_path(g, parent, s, e),
    ensures
        r1 == r2,
{
}

} // verus!
