pub mod a_star;
pub mod bellman_ford;
pub mod breadth_first_search;
pub mod depth_first_search;
pub mod dijkstra;
pub mod greedy_best_first_search;
pub mod grid;
pub mod reconstruction;
pub mod search_support;

use vstd::prelude::*;

use crate::algorithms::grid::endpoints_ok;
use crate::algorithms::grid::GridMap;
use crate::algorithms::search_support::search_outcome_ok;
use crate::algorithms::search_support::search_outcome_optimal;

verus! {

/// The closed set of search strategies the engine offers.
pub enum Algorithm {
    BreadthFirstSearch,
    DepthFirstSearch,
    Dijkstra,
    AStar,
    GreedyBestFirstSearch,
    BellmanFord,
}

/// A configured run: the grid, its endpoints, and the chosen strategy.
pub struct Pathfinder {
    pub grid: GridMap,
    pub start: Point,
    pub end: Point,
    pub algorithm: Algorithm,
}

/// What each strategy asks of the grid while it explores.
pub trait PathFindingAlgorithm {
    /// The in-bounds neighbors of a cell, each paired with its block.
    fn get_surrounding_blocks(&self, grid: &GridMap, point: &Point) -> (r: Vec<(GridBlock, Point)>)
        requires
            grid.wf(),
            grid.in_bounds(*point),
        ensures
            forall|i: int|
                0 <= i < r@.len() ==> grid.in_bounds((#[trigger] r@[i]).1)
                    && crate::algorithms::grid::adjacent(*point, r@[i].1) && r@[i].0
                    == grid.block_at(r@[i].1),
            forall|q: Point|
                grid.in_bounds(q) && #[trigger] crate::algorithms::grid::adjacent(*point, q)
                    ==> exists|i: int| 0 <= i < r@.len() && (#[trigger] r@[i]).1 == q,
    ;
}

impl PathFindingAlgorithm for Pathfinder {
    fn get_surrounding_blocks(&self, grid: &GridMap, point: &Point) -> (r: Vec<(GridBlock, Point)>)
    {
        grid.get_surrounding_blocks(point)
    }
}

impl Pathfinder {
    /// Dispatches to the selected algorithm. Every variant answers
    /// reachability exactly; breadth-first, Dijkstra, A* and Bellman-Ford
    /// also return a route with as few edges as any.
    pub fn run(&self) -> (r: SearchOutcome)
        requires
            self.grid.wf(),
            endpoints_ok(self.grid, self.start, self.end),
        ensures
            search_outcome_ok(self.grid, self.start, self.end, r),
            !(self.algorithm is DepthFirstSearch || self.algorithm is GreedyBestFirstSearch)
                ==> search_outcome_optimal(self.grid, self.start, self.end, r),
    {
        match self.algorithm {
            Algorithm::BreadthFirstSearch => breadth_first_search::run(
                &self.grid,
                &self.start,
                &self.end,
            ),
            Algorithm::DepthFirstSearch => depth_first_search::run(
                &self.grid,
                &self.start,
                &self.end,
            ),
            Algorithm::Dijkstra => dijkstra::run(&self.grid, &self.start, &self.end),
            Algorithm::AStar => a_star::run(&self.grid, &self.start, &self.end),
            Algorithm::GreedyBestFirstSearch => greedy_best_first_search::run(
                &self.grid,
                &self.start,
                &self.end,
            ),
            Algorithm::BellmanFord => bellman_ford::run(&self.grid, &self.start, &self.end),
        }
    }
}

/// What a single grid cell holds.
#[derive(Clone, Copy, Debug, PartialEq, Eq, Structural)]
pub enum GridBlock {
    Start,
    End,
    Obstacle,
    Path,
    Empty,
}

impl GridBlock {
    /// The glyph a renderer prints for this block.
    pub fn to_visual_block(&self) -> (r: &'static str)
        ensures
            r@ == match self {
                GridBlock::Start => "▣"@,
                GridBlock::End => "▢"@,
                GridBlock::Obstacle => "■"@,
                GridBlock::Path => "⊡"@,
                GridBlock::Empty => "•"@,
            },
    {
        match self {
            GridBlock::Start => "▣",
            GridBlock::End => "▢",
            GridBlock::Obstacle => "■",
            GridBlock::Path => "⊡",
            GridBlock::Empty => "•",
        }
    }

    /// The block's name, as shown in prompts.
    pub fn to_name(&self) -> (r: &'static str)
        ensures
            r@ == match self {
                GridBlock::Start => "Start"@,
                GridBlock::End => "End"@,
                GridBlock::Obstacle => "Obstacle"@,
                GridBlock::Path => "Path"@,
                GridBlock::Empty => "Empty"@,
            },
    {
        match self {
            GridBlock::Start => "Start",
            GridBlock::End => "End",
            GridBlock::Obstacle => "Obstacle",
            GridBlock::Path => "Path",
            GridBlock::Empty => "Empty",
        }
    }

    /// An explicit copy of the block.
    pub fn to_block(&self) -> (r: GridBlock)
        ensures
            r == *self,
    {
        match self {
            GridBlock::Start => GridBlock::Start,
            GridBlock::End => GridBlock::End,
            GridBlock::Obstacle => GridBlock::Obstacle,
            GridBlock::Path => GridBlock::Path,
            GridBlock::Empty => GridBlock::Empty,
        }
    }
}

/// What a search returns: whether a route exists, the route itself in
/// start-to-end order, and its cost in edges.
pub struct SearchOutcome {
    pub found: bool,
    pub path: Vec<Point>,
    pub cost: u32,
}

/// A cell coordinate: `x` counts columns, `y` counts rows.
#[derive(Clone, Copy, Debug, PartialEq, Eq, Structural)]
pub struct Point {
    pub x: u16,
    pub y: u16,
}

impl Point {
    pub fn new(x: u16, y: u16) -> (r: Point)
        ensures
            r.x == x,
            r.y == y,
    {
        Point { x, y }
    }
}

/// One cell of the grid: its coordinate and its block.
pub struct GridElement {
    pub point: Point,
    pub grid: GridBlock,
}

impl GridElement {
    pub fn new(point: Point, grid: GridBlock) -> (r: GridElement)
        ensures
            r.point == point,
            r.grid == grid,
    {
        GridElement { point, grid }
    }
}

/// The grid's dimensions.
#[derive(Clone, Copy, Debug, PartialEq, Eq, Structural)]
pub struct GridSize {
    pub width: u16,
    pub height: u16,
}

impl GridSize {
    pub fn new(width: u16, height: u16) -> (r: GridSize)
        ensures
            r.width == width,
            r.height == height,
    {
        GridSize { width, height }
    }
}

} // verus!
