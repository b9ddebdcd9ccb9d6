use path_finder::algorithms::a_star;
use path_finder::algorithms::bellman_ford;
use path_finder::algorithms::breadth_first_search;
use path_finder::algorithms::depth_first_search;
use path_finder::algorithms::dijkstra;
use path_finder::algorithms::greedy_best_first_search;
use path_finder::algorithms::grid::GridMap;
use path_finder::algorithms::Algorithm;
use path_finder::algorithms::GridBlock;
use path_finder::algorithms::GridSize;
use path_finder::algorithms::Pathfinder;
use path_finder::algorithms::Point;
use path_finder::algorithms::SearchOutcome;

fn empty_grid(w: u16, h: u16) -> GridMap {
    GridMap::new(GridSize::new(w, h))
}

fn adjacent(a: Point, b: Point) -> bool {
    let dx = if a.x >= b.x { a.x - b.x } else { b.x - a.x };
    let dy = if a.y >= b.y { a.y - b.y } else { b.y - a.y };
    dx + dy == 1
}

fn assert_valid_path(grid: &GridMap, start: Point, end: Point, r: &SearchOutcome) {
    assert!(r.found);
    assert!(r.path.len() >= 2);
    assert_eq!(r.path[0], start);
    assert_eq!(r.path[r.path.len() - 1], end);
    assert_eq!(r.cost as usize, r.path.len() - 1);
    for i in 0..r.path.len() {
        let b = grid.get_block(&r.path[i]).unwrap();
        assert_ne!(b, GridBlock::Obstacle);
        if i + 1 < r.path.len() {
            assert!(adjacent(r.path[i], r.path[i + 1]));
        }
        for j in 0..i {
            assert_ne!(r.path[j], r.path[i], "route must not repeat a cell");
        }
    }
}

#[test]
fn scenario_a_empty_five_by_five_costs_eight() {
    let mut grid = empty_grid(5, 5);
    let start = Point::new(0, 0);
    let end = Point::new(4, 4);
    grid.set_start(&start).unwrap();
    grid.set_end(&end).unwrap();

    let b = breadth_first_search::run(&grid, &start, &end);
    let d = dijkstra::run(&grid, &start, &end);
    let a = a_star::run(&grid, &start, &end);
    assert_eq!(b.cost, 8);
    assert_eq!(d.cost, 8);
    assert_eq!(a.cost, 8);
    assert_valid_path(&grid, start, end, &b);
    assert_valid_path(&grid, start, end, &d);
    assert_valid_path(&grid, start, end, &a);
}

#[test]
fn scenario_b_full_interior_row_separates() {
    let mut grid = empty_grid(7, 7);
    for x in 0..7 {
        grid.set_block(&Point::new(x, 3), &GridBlock::Obstacle).unwrap();
    }
    let start = Point::new(1, 1);
    let end = Point::new(5, 5);
    grid.set_start(&start).unwrap();
    grid.set_end(&end).unwrap();

    for r in [
        breadth_first_search::run(&grid, &start, &end),
        depth_first_search::run(&grid, &start, &end),
        dijkstra::run(&grid, &start, &end),
        a_star::run(&grid, &start, &end),
        greedy_best_first_search::run(&grid, &start, &end),
        bellman_ford::run(&grid, &start, &end),
    ] {
        assert!(!r.found);
        assert_eq!(r.path.len(), 0);
        assert_eq!(r.cost, 0);
    }
}

fn maze_grid() -> (GridMap, Point, Point) {
    // a 7x6 maze with a wall that forces a detour
    let mut grid = empty_grid(7, 6);
    for y in 0..5 {
        grid.set_block(&Point::new(3, y), &GridBlock::Obstacle).unwrap();
    }
    grid.set_block(&Point::new(1, 2), &GridBlock::Obstacle).unwrap();
    let start = Point::new(0, 0);
    let end = Point::new(6, 0);
    grid.set_start(&start).unwrap();
    grid.set_end(&end).unwrap();
    (grid, start, end)
}

#[test]
fn all_algorithms_agree_on_reachability() {
    let (grid, start, end) = maze_grid();
    let results = [
        breadth_first_search::run(&grid, &start, &end),
        depth_first_search::run(&grid, &start, &end),
        dijkstra::run(&grid, &start, &end),
        a_star::run(&grid, &start, &end),
        greedy_best_first_search::run(&grid, &start, &end),
        bellman_ford::run(&grid, &start, &end),
    ];
    for r in &results {
        assert!(r.found);
        assert_valid_path(&grid, start, end, r);
    }
}

#[test]
fn optimal_algorithms_agree_on_cost() {
    let (grid, start, end) = maze_grid();
    // the wall at x=3 spans y=0..4, so the detour goes below: 6 right + 5
    // down + 5 up = 16 edges
    let b = breadth_first_search::run(&grid, &start, &end);
    let d = dijkstra::run(&grid, &start, &end);
    let a = a_star::run(&grid, &start, &end);
    let f = bellman_ford::run(&grid, &start, &end);
    assert_eq!(b.cost, 16);
    assert_eq!(d.cost, b.cost);
    assert_eq!(a.cost, b.cost);
    assert_eq!(f.cost, b.cost);
}

#[test]
fn dfs_and_greedy_find_some_valid_route() {
    let (grid, start, end) = maze_grid();
    let dfs = depth_first_search::run(&grid, &start, &end);
    let greedy = greedy_best_first_search::run(&grid, &start, &end);
    assert_valid_path(&grid, start, end, &dfs);
    assert_valid_path(&grid, start, end, &greedy);
    let best = breadth_first_search::run(&grid, &start, &end);
    assert!(dfs.cost >= best.cost);
    assert!(greedy.cost >= best.cost);
}

#[test]
fn pathfinder_dispatches_each_variant() {
    let (grid, start, end) = maze_grid();
    for algorithm in [
        Algorithm::BreadthFirstSearch,
        Algorithm::DepthFirstSearch,
        Algorithm::Dijkstra,
        Algorithm::AStar,
        Algorithm::GreedyBestFirstSearch,
        Algorithm::BellmanFord,
    ] {
        let (grid2, _, _) = maze_grid();
        let pathfinder = Pathfinder { grid: grid2, start, end, algorithm };
        let r = pathfinder.run();
        assert!(r.found);
        assert_valid_path(&grid, start, end, &r);
    }
}

#[test]
fn heuristic_is_manhattan_distance() {
    assert_eq!(a_star::heuristic(&Point::new(2, 3), &Point::new(5, 1)), 5);
    assert_eq!(a_star::heuristic(&Point::new(5, 1), &Point::new(2, 3)), 5);
    assert_eq!(a_star::heuristic(&Point::new(4, 4), &Point::new(4, 4)), 0);
    assert_eq!(a_star::heuristic(&Point::new(0, 0), &Point::new(4, 4)), 8);
}

#[test]
fn painting_keeps_start_and_end() {
    let mut grid = empty_grid(5, 5);
    let start = Point::new(0, 0);
    let end = Point::new(4, 4);
    grid.set_start(&start).unwrap();
    grid.set_end(&end).unwrap();
    let r = breadth_first_search::run(&grid, &start, &end);
    assert!(r.found);
    grid.paint_path(&r.path);
    assert_eq!(grid.get_block(&start), Ok(GridBlock::Start));
    assert_eq!(grid.get_block(&end), Ok(GridBlock::End));
    for i in 1..r.path.len() - 1 {
        assert_eq!(grid.get_block(&r.path[i]), Ok(GridBlock::Path));
    }
    // a cell off the route is untouched
    let mut on_route = vec![false; 25];
    for p in &r.path {
        on_route[(p.y * 5 + p.x) as usize] = true;
    }
    for y in 0..5 {
        for x in 0..5 {
            if !on_route[(y * 5 + x) as usize] {
                assert_eq!(grid.get_block(&Point::new(x, y)), Ok(GridBlock::Empty));
            }
        }
    }
}
