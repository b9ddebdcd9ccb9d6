use vstd::prelude::*;

use crate::algorithms::GridBlock;
use crate::algorithms::GridElement;
use crate::algorithms::GridSize;
use crate::algorithms::Point;

verus! {

/// Smallest accepted grid side.
pub const MIN_DIM: u16 = 5;

/// Largest accepted grid side.
pub const MAX_DIM: u16 = 100;

/// Failures of cell access and of Start/End placement.
#[derive(Clone, Copy, Debug, PartialEq, Eq, Structural)]
pub enum GridError {
    OutOfBounds,
    OnObstacle,
}

/// The rectangular obstacle grid: sole owner of all cell state, plus the
/// recorded Start and End coordinates.
pub struct GridMap {
    pub grid: Vec<Vec<GridElement>>,
    pub size: GridSize,
    pub full_size: u16,
    pub start: Point,
    pub end: Point,
}

/// Two cells are adjacent when they differ by exactly one step along one axis.
pub open spec fn adjacent(a: Point, b: Point) -> bool {
    (a.x == b.x && (a.y + 1 == b.y || b.y + 1 == a.y)) || (a.y == b.y && (a.x + 1 == b.x
        || b.x + 1 == a.x))
}

/// A walk over the grid: every cell in bounds and free of obstacles, and each
/// consecutive pair of cells adjacent.
pub open spec fn is_path(g: GridMap, p: Seq<Point>) -> bool {
    &&& p.len() >= 1
    &&& forall|i: int|
        0 <= i < p.len() ==> g.in_bounds(#[trigger] p[i]) && g.block_at(p[i]) != GridBlock::Obstacle
    &&& forall|i: int| 0 <= i < p.len() - 1 ==> adjacent(#[trigger] p[i], p[i + 1])
}

/// A walk that starts at `s` and ends at `e`.
pub open spec fn is_path_between(g: GridMap, s: Point, e: Point, p: Seq<Point>) -> bool {
    is_path(g, p) && p[0] == s && p[p.len() - 1] == e
}

/// `e` can be reached from `s` through obstacle-free cells.
pub open spec fn reachable(g: GridMap, s: Point, e: Point) -> bool {
    exists|p: Seq<Point>| is_path_between(g, s, e, p)
}

/// What every search assumes of its endpoints: distinct, in bounds, and not
/// on an obstacle.
pub open spec fn endpoints_ok(g: GridMap, s: Point, e: Point) -> bool {
    &&& g.in_bounds(s)
    &&& g.in_bounds(e)
    &&& s != e
    &&& g.block_at(s) != GridBlock::Obstacle
    &&& g.block_at(e) != GridBlock::Obstacle
}

/// The neighbor enumeration, as a function of the grid and the cell: the
/// in-bounds cells up, down, left, right of `p`, in that order, each paired
/// with its block.
pub open spec fn spec_neighbors(g: GridMap, p: Point) -> Seq<(GridBlock, Point)> {
    (if p.y > 0 {
        seq![(g.block_at(Point { x: p.x, y: (p.y - 1) as u16 }), Point { x: p.x, y: (p.y - 1) as u16 })]
    } else {
        Seq::empty()
    }) + (if p.y + 1 < g.size.height {
        seq![(g.block_at(Point { x: p.x, y: (p.y + 1) as u16 }), Point { x: p.x, y: (p.y + 1) as u16 })]
    } else {
        Seq::empty()
    }) + (if p.x > 0 {
        seq![(g.block_at(Point { x: (p.x - 1) as u16, y: p.y }), Point { x: (p.x - 1) as u16, y: p.y })]
    } else {
        Seq::empty()
    }) + (if p.x + 1 < g.size.width {
        seq![(g.block_at(Point { x: (p.x + 1) as u16, y: p.y }), Point { x: (p.x + 1) as u16, y: p.y })]
    } else {
        Seq::empty()
    })
}

impl GridMap {
    /// Well-formedness: dimensions within the accepted range and a
    /// homogeneous rectangular cell array.
    pub open spec fn wf(self) -> bool {
        &&& MIN_DIM <= self.size.width <= MAX_DIM
        &&& MIN_DIM <= self.size.height <= MAX_DIM
        &&& self.grid@.len() == self.size.height
        &&& forall|y: int| 0 <= y < self.size.height ==> (#[trigger] self.grid@[y])@.len()
            == self.size.width
        &&& self.full_size == self.size.height
    }

    pub open spec fn in_bounds(self, p: Point) -> bool {
        p.x < self.size.width && p.y < self.size.height
    }

    pub open spec fn block_at(self, p: Point) -> GridBlock {
        self.grid@[p.y as int]@[p.x as int].grid
    }

    /// The number of cells.
    pub open spec fn cell_count(self) -> int {
        self.size.width * self.size.height
    }

    /// The flat table index of a cell: row-major order.
    pub open spec fn spec_idx(self, p: Point) -> int {
        p.y * self.size.width + p.x
    }

    /// Everything of the grid except the cell array itself.
    pub open spec fn same_frame(self, other: GridMap) -> bool {
        &&& self.size == other.size
        &&& self.full_size == other.full_size
        &&& self.start == other.start
        &&& self.end == other.end
    }

    /// An all-Empty grid of the given dimensions.
    pub fn new(size: GridSize) -> (r: GridMap)
        requires
            MIN_DIM <= size.width <= MAX_DIM,
            MIN_DIM <= size.height <= MAX_DIM,
        ensures
            r.wf(),
            r.size == size,
            r.start == (Point { x: 0, y: 0 }),
            r.end == (Point { x: 0, y: 0 }),
            forall|p: Point| r.in_bounds(p) ==> r.block_at(p) == GridBlock::Empty,
    {
        let mut grid: Vec<Vec<GridElement>> = Vec::new();
        for y in 0..size.height
            invariant
                grid@.len() == y,
                forall|yy: int|
                    0 <= yy < y ==> (#[trigger] grid@[yy])@.len() == size.width,
                forall|yy: int, xx: int|
                    0 <= yy < y && 0 <= xx < size.width ==> (#[trigger] grid@[yy]@[xx]).grid
                        == GridBlock::Empty,
        {
            let mut row: Vec<GridElement> = Vec::new();
            for x in 0..size.width
                invariant
                    row@.len() == x,
                    forall|xx: int|
                        0 <= xx < x ==> (#[trigger] row@[xx]).grid == GridBlock::Empty,
            {
                row.push(GridElement::new(Point::new(x, y), GridBlock::Empty));
            }
            grid.push(row);
        }
        let full_size = size.height;
        GridMap { grid, size, full_size, start: Point::new(0, 0), end: Point::new(0, 0) }
    }

    /// The block at an in-bounds cell.
    fn at(&self, p: &Point) -> (r: GridBlock)
        requires
            self.wf(),
            self.in_bounds(*p),
        ensures
            r == self.block_at(*p),
    {
        self.grid[p.y as usize][p.x as usize].grid
    }

    /// Overwrites the block at an in-bounds cell, leaving every other cell
    /// and the rest of the grid unchanged.
    pub(crate) fn put(&mut self, p: &Point, b: GridBlock)
        requires
            old(self).wf(),
            old(self).in_bounds(*p),
        ensures
            final(self).wf(),
            final(self).same_frame(*old(self)),
            final(self).block_at(*p) == b,
            forall|q: Point|
                old(self).in_bounds(q) && q != *p ==> #[trigger] final(self).block_at(q) == old(self).block_at(q),
    {
        let y = p.y as usize;
        let x = p.x as usize;
        let e = GridElement::new(Point::new(p.x, p.y), b);
        self.grid[y][x] = e;
        assert forall|q: Point| old(self).in_bounds(q) && q != *p implies #[trigger] self.block_at(
            q,
        ) == old(self).block_at(q) by {
            if q.y == p.y {
                assert(q.x != p.x);
            }
        }
    }

    /// Reads a cell; fails with `OutOfBounds` exactly when the coordinate
    /// exceeds the dimensions.
    pub fn get_block(&self, point: &Point) -> (r: Result<GridBlock, GridError>)
        requires
            self.wf(),
        ensures
            self.in_bounds(*point) ==> r == Ok::<GridBlock, GridError>(self.block_at(*point)),
            !self.in_bounds(*point) ==> r == Err::<GridBlock, GridError>(GridError::OutOfBounds),
    {
        if point.x < self.size.width && point.y < self.size.height {
            Ok(self.at(point))
        } else {
            Err(GridError::OutOfBounds)
        }
    }

    /// Writes a cell; fails with `OutOfBounds` exactly when the coordinate
    /// exceeds the dimensions, leaving the grid unchanged.
    pub fn set_block(&mut self, point: &Point, block: &GridBlock) -> (r: Result<(), GridError>)
        requires
            old(self).wf(),
        ensures
            final(self).wf(),
            final(self).same_frame(*old(self)),
            old(self).in_bounds(*point) ==> r == Ok::<(), GridError>(()) && final(self).block_at(
                *point,
            ) == *block,
            !old(self).in_bounds(*point) ==> r == Err::<(), GridError>(GridError::OutOfBounds)
                && *final(self) == *old(self),
            forall|q: Point|
                old(self).in_bounds(q) && q != *point ==> #[trigger] final(self).block_at(q) == old(self).block_at(q),
    {
        if point.x < self.size.width && point.y < self.size.height {
            self.put(point, block.to_block());
            Ok(())
        } else {
            Err(GridError::OutOfBounds)
        }
    }

    /// Records the Start coordinate and marks its cell; fails, leaving the
    /// grid unchanged, when the coordinate is out of bounds or on an
    /// obstacle.
    pub fn set_start(&mut self, point: &Point) -> (r: Result<(), GridError>)
        requires
            old(self).wf(),
        ensures
            final(self).wf(),
            r is Ok <==> old(self).in_bounds(*point) && old(self).block_at(*point)
                != GridBlock::Obstacle,
            r is Ok ==> final(self).start == *point && final(self).end == old(self).end && final(self).size == old(self).size && final(self).full_size == old(self).full_size && final(self).block_at(*point) == GridBlock::Start && forall|q: Point|
                old(self).in_bounds(q) && q != *point ==> #[trigger] final(self).block_at(q) == old(self).block_at(q),
            r is Err ==> *final(self) == *old(self) && (if old(self).in_bounds(*point) {
                r == Err::<(), GridError>(GridError::OnObstacle)
            } else {
                r == Err::<(), GridError>(GridError::OutOfBounds)
            }),
    {
        if !(point.x < self.size.width && point.y < self.size.height) {
            return Err(GridError::OutOfBounds);
        }
        if self.at(point) == GridBlock::Obstacle {
            return Err(GridError::OnObstacle);
        }
        self.start = Point::new(point.x, point.y);
        self.put(point, GridBlock::Start);
        Ok(())
    }

    /// Records the End coordinate and marks its cell; fails, leaving the
    /// grid unchanged, when the coordinate is out of bounds or on an
    /// obstacle.
    pub fn set_end(&mut self, point: &Point) -> (r: Result<(), GridError>)
        requires
            old(self).wf(),
        ensures
            final(self).wf(),
            r is Ok <==> old(self).in_bounds(*point) && old(self).block_at(*point)
                != GridBlock::Obstacle,
            r is Ok ==> final(self).end == *point && final(self).start == old(self).start && final(self).size == old(self).size && final(self).full_size == old(self).full_size && final(self).block_at(*point) == GridBlock::End && forall|q: Point|
                old(self).in_bounds(q) && q != *point ==> #[trigger] final(self).block_at(q) == old(self).block_at(q),
            r is Err ==> *final(self) == *old(self) && (if old(self).in_bounds(*point) {
                r == Err::<(), GridError>(GridError::OnObstacle)
            } else {
                r == Err::<(), GridError>(GridError::OutOfBounds)
            }),
    {
        if !(point.x < self.size.width && point.y < self.size.height) {
            return Err(GridError::OutOfBounds);
        }
        if self.at(point) == GridBlock::Obstacle {
            return Err(GridError::OnObstacle);
        }
        self.end = Point::new(point.x, point.y);
        self.put(point, GridBlock::End);
        Ok(())
    }

    /// The number of cells, as a table length.
    pub fn num_cells(&self) -> (r: usize)
        requires
            self.wf(),
        ensures
            r == self.cell_count(),
            r <= 10000,
    {
        proof {
            assert((self.size.width as int) * (self.size.height as int) <= 10000)
                by (nonlinear_arith)
                requires
                    self.size.width <= 100,
                    self.size.height <= 100,
            ;
        }
        (self.size.width as usize) * (self.size.height as usize)
    }

    /// The flat table index of an in-bounds cell.
    pub fn index_of(&self, p: &Point) -> (r: usize)
        requires
            self.wf(),
            self.in_bounds(*p),
        ensures
            r == self.spec_idx(*p),
            r < self.cell_count(),
    {
        proof {
            lemma_idx_in_range(*self, *p);
            assert((p.y as int) * (self.size.width as int) <= 9900) by (nonlinear_arith)
                requires
                    p.y < 100,
                    self.size.width <= 100,
            ;
        }
        (p.y as usize) * (self.size.width as usize) + (p.x as usize)
    }


    /// Whether a pair of endpoints is acceptable to every search: distinct,
    /// in bounds, and free of obstacles.
    pub fn check_endpoints(&self, s: &Point, e: &Point) -> (r: bool)
        requires
            self.wf(),
        ensures
            r == endpoints_ok(*self, *s, *e),
    {
        if !(s.x < self.size.width && s.y < self.size.height) {
            return false;
        }
        if !(e.x < self.size.width && e.y < self.size.height) {
            return false;
        }
        if *s == *e {
            return false;
        }
        if self.at(s) == GridBlock::Obstacle {
            return false;
        }
        if self.at(e) == GridBlock::Obstacle {
            return false;
        }
        true
    }

    /// Paints a found route onto the grid: every route cell except the two
    /// endpoints becomes a Path block, and no other cell moves — so the
    /// Start and End cells keep their blocks.
    pub fn paint_path(&mut self, path: &Vec<Point>)
        requires
            old(self).wf(),
            path@.len() >= 2,
            forall|i: int| 0 <= i < path@.len() ==> old(self).in_bounds(#[trigger] path@[i]),
            forall|i: int|
                1 <= i < path@.len() - 1 ==> #[trigger] path@[i] != path@[0] && path@[i]
                    != path@[path@.len() - 1],
        ensures
            final(self).wf(),
            final(self).same_frame(*old(self)),
            forall|i: int|
                1 <= i < path@.len() - 1 ==> final(self).block_at(#[trigger] path@[i])
                    == GridBlock::Path,
            forall|q: Point|
                old(self).in_bounds(q) && !(exists|i: int|
                    1 <= i < path@.len() - 1 && #[trigger] path@[i] == q)
                    ==> #[trigger] final(self).block_at(q) == old(self).block_at(q),
            final(self).block_at(path@[0]) == old(self).block_at(path@[0]),
            final(self).block_at(path@[path@.len() - 1]) == old(self).block_at(
                path@[path@.len() - 1],
            ),
    {
        let ghost g0 = *self;
        let last = path.len() - 1;
        for i in 1..last
            invariant
                self.wf(),
                self.same_frame(g0),
                g0.wf(),
                1 <= i <= last,
                last == path@.len() - 1,
                path@.len() >= 2,
                forall|j: int| 0 <= j < path@.len() ==> g0.in_bounds(#[trigger] path@[j]),
                forall|j: int|
                    1 <= j < i ==> self.block_at(#[trigger] path@[j]) == GridBlock::Path,
                forall|q: Point|
                    g0.in_bounds(q) && !(exists|j: int| 1 <= j < i && #[trigger] path@[j] == q)
                        ==> #[trigger] self.block_at(q) == g0.block_at(q),
        {
            let ghost pre = *self;
            self.put(&path[i], GridBlock::Path);
            proof {
                assert forall|q: Point|
                    g0.in_bounds(q) && !(exists|j: int|
                        1 <= j < i + 1 && #[trigger] path@[j] == q) implies #[trigger] self.block_at(
                    q,
                ) == g0.block_at(q) by {
                    assert(q != path@[i as int]);
                    assert(pre.block_at(q) == g0.block_at(q)) by {
                        assert(!(exists|j: int| 1 <= j < i && #[trigger] path@[j] == q));
                    }
                }
                assert forall|j: int|
                    1 <= j < i + 1 implies self.block_at(#[trigger] path@[j])
                    == GridBlock::Path by {
                    if j < i {
                        if path@[j] != path@[i as int] {
                            assert(self.block_at(path@[j]) == pre.block_at(path@[j]));
                        }
                    }
                }
            }
        }
    }

    /// The in-bounds axis-aligned neighbors of a cell, each paired with its
    /// current block, enumerated up, down, left, right.
    pub fn get_surrounding_blocks(&self, point: &Point) -> (r: Vec<(GridBlock, Point)>)
        requires
            self.wf(),
            self.in_bounds(*point),
        ensures
            r@ == spec_neighbors(*self, *point),
            r@.len() <= 4,
            forall|i: int|
                0 <= i < r@.len() ==> self.in_bounds((#[trigger] r@[i]).1) && adjacent(
                    *point,
                    r@[i].1,
                ) && r@[i].0 == self.block_at(r@[i].1),
            forall|q: Point|
                self.in_bounds(q) && #[trigger] adjacent(*point, q) ==> exists|i: int|
                    0 <= i < r@.len() && (#[trigger] r@[i]).1 == q,
    {
        let mut r: Vec<(GridBlock, Point)> = Vec::new();
        let ghost mut iu: int = -1;
        let ghost mut id: int = -1;
        let ghost mut il: int = -1;
        if point.y > 0 {
            let q = Point::new(point.x, point.y - 1);
            proof {
                iu = r@.len() as int;
            }
            r.push((self.at(&q), q));
        }
        if point.y + 1 < self.size.height {
            let q = Point::new(point.x, point.y + 1);
            proof {
                id = r@.len() as int;
            }
            r.push((self.at(&q), q));
        }
        if point.x > 0 {
            let q = Point::new(point.x - 1, point.y);
            proof {
                il = r@.len() as int;
            }
            r.push((self.at(&q), q));
        }
        if point.x + 1 < self.size.width {
            let q = Point::new(point.x + 1, point.y);
            r.push((self.at(&q), q));
        }
        proof {
            assert(r@ =~= spec_neighbors(*self, *point));
            assert forall|q: Point| self.in_bounds(q) && #[trigger] adjacent(*point, q) implies exists|i: int|
                0 <= i < r@.len() && (#[trigger] r@[i]).1 == q by {
                if q.x == point.x && q.y + 1 == point.y {
                    assert(r@[iu].1 == q);
                } else if q.x == point.x && point.y + 1 == q.y {
                    assert(r@[id].1 == q);
                } else if q.y == point.y && q.x + 1 == point.x {
                    assert(r@[il].1 == q);
                } else {
                    assert(q.y == point.y && point.x + 1 == q.x);
                    assert(r@[r@.len() - 1].1 == q);
                }
            }
        }
        r
    }
}

/// An in-bounds cell's flat index lies below the cell count.
pub proof fn lemma_idx_in_range(g: GridMap, p: Point)
    requires
        g.wf(),
        g.in_bounds(p),
    ensures
        0 <= g.spec_idx(p) < g.cell_count(),
{
    assert(0 <= p.y * g.size.width + p.x < g.size.width * g.size.height) by (nonlinear_arith)
        requires
            p.x < g.size.width,
            p.y < g.size.height,
    ;
}

/// Distinct in-bounds cells have distinct flat indices.
pub proof fn lemma_idx_injective(g: GridMap, p: Point, q: Point)
    requires
        g.wf(),
        g.in_bounds(p),
        g.in_bounds(q),
        g.spec_idx(p) == g.spec_idx(q),
    ensures
        p == q,
{
    assert(p.x == q.x && p.y == q.y) by (nonlinear_arith)
        requires
            p.x < g.size.width,
            q.x < g.size.width,
            p.y * g.size.width + p.x == q.y * g.size.width + q.x,
    ;
}

} // verus!
