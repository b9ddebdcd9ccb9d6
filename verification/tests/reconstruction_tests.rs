use path_finder::algorithms::grid::GridMap;
use path_finder::algorithms::reconstruction::reconstruct_path;
use path_finder::algorithms::reconstruction::ReconstructionError;
use path_finder::algorithms::GridSize;
use path_finder::algorithms::Point;

fn idx(p: Point, width: u16) -> usize {
    (p.y as usize) * (width as usize) + (p.x as usize)
}

#[test]
fn reconstruction_walks_back_to_start() {
    let grid = GridMap::new(GridSize::new(5, 5));
    let mut parent: Vec<Option<Point>> = vec![None; 25];
    let start = Point::new(0, 0);
    // chain (0,0) -> (1,0) -> (1,1) -> (2,1)
    parent[idx(Point::new(1, 0), 5)] = Some(Point::new(0, 0));
    parent[idx(Point::new(1, 1), 5)] = Some(Point::new(1, 0));
    parent[idx(Point::new(2, 1), 5)] = Some(Point::new(1, 1));
    let path = reconstruct_path(&grid, &parent, &start, &Point::new(2, 1)).unwrap();
    assert_eq!(
        path,
        vec![Point::new(0, 0), Point::new(1, 0), Point::new(1, 1), Point::new(2, 1)]
    );
}

#[test]
fn reconstruction_is_idempotent() {
    let grid = GridMap::new(GridSize::new(5, 5));
    let mut parent: Vec<Option<Point>> = vec![None; 25];
    let start = Point::new(0, 0);
    parent[idx(Point::new(1, 0), 5)] = Some(Point::new(0, 0));
    parent[idx(Point::new(2, 0), 5)] = Some(Point::new(1, 0));
    let end = Point::new(2, 0);
    let first = reconstruct_path(&grid, &parent, &start, &end);
    let second = reconstruct_path(&grid, &parent, &start, &end);
    assert_eq!(first, second);
    assert_eq!(first.unwrap().len(), 3);
}

#[test]
fn reconstruction_reports_missing_predecessor() {
    let grid = GridMap::new(GridSize::new(5, 5));
    let parent: Vec<Option<Point>> = vec![None; 25];
    let r = reconstruct_path(&grid, &parent, &Point::new(0, 0), &Point::new(3, 3));
    assert_eq!(r, Err(ReconstructionError::MissingPredecessor));
}

#[test]
fn reconstruction_reports_cycle() {
    let grid = GridMap::new(GridSize::new(5, 5));
    let mut parent: Vec<Option<Point>> = vec![None; 25];
    // (1,1) and (2,1) point at each other and never reach the start
    parent[idx(Point::new(1, 1), 5)] = Some(Point::new(2, 1));
    parent[idx(Point::new(2, 1), 5)] = Some(Point::new(1, 1));
    let r = reconstruct_path(&grid, &parent, &Point::new(0, 0), &Point::new(1, 1));
    assert_eq!(r, Err(ReconstructionError::CycleDetected));
}
