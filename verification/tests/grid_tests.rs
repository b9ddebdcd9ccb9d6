use path_finder::algorithms::grid::GridError;
use path_finder::algorithms::grid::GridMap;
use path_finder::algorithms::GridBlock;
use path_finder::algorithms::GridSize;
use path_finder::algorithms::Point;

#[test]
fn new_grid_is_all_empty() {
    let grid = GridMap::new(GridSize::new(5, 7));
    assert_eq!(grid.size.width, 5);
    assert_eq!(grid.size.height, 7);
    assert_eq!(grid.full_size, 7);
    for y in 0..7 {
        for x in 0..5 {
            assert_eq!(grid.get_block(&Point::new(x, y)), Ok(GridBlock::Empty));
        }
    }
}

#[test]
fn get_block_out_of_bounds() {
    let grid = GridMap::new(GridSize::new(5, 5));
    assert_eq!(grid.get_block(&Point::new(5, 0)), Err(GridError::OutOfBounds));
    assert_eq!(grid.get_block(&Point::new(0, 5)), Err(GridError::OutOfBounds));
    assert_eq!(grid.get_block(&Point::new(4, 4)), Ok(GridBlock::Empty));
}

#[test]
fn set_block_writes_one_cell() {
    let mut grid = GridMap::new(GridSize::new(6, 6));
    let p = Point::new(2, 3);
    assert_eq!(grid.set_block(&p, &GridBlock::Obstacle), Ok(()));
    assert_eq!(grid.get_block(&p), Ok(GridBlock::Obstacle));
    assert_eq!(grid.get_block(&Point::new(3, 2)), Ok(GridBlock::Empty));
    assert_eq!(
        grid.set_block(&Point::new(6, 0), &GridBlock::Obstacle),
        Err(GridError::OutOfBounds)
    );
}

#[test]
fn set_start_and_set_end_record_and_mark() {
    let mut grid = GridMap::new(GridSize::new(5, 5));
    assert_eq!(grid.set_start(&Point::new(0, 0)), Ok(()));
    assert_eq!(grid.set_end(&Point::new(4, 4)), Ok(()));
    assert_eq!(grid.start, Point::new(0, 0));
    assert_eq!(grid.end, Point::new(4, 4));
    assert_eq!(grid.get_block(&Point::new(0, 0)), Ok(GridBlock::Start));
    assert_eq!(grid.get_block(&Point::new(4, 4)), Ok(GridBlock::End));
}

#[test]
fn set_start_rejects_obstacle_and_out_of_bounds() {
    let mut grid = GridMap::new(GridSize::new(5, 5));
    grid.set_block(&Point::new(1, 1), &GridBlock::Obstacle).unwrap();
    assert_eq!(grid.set_start(&Point::new(1, 1)), Err(GridError::OnObstacle));
    assert_eq!(grid.set_start(&Point::new(9, 9)), Err(GridError::OutOfBounds));
    assert_eq!(grid.set_end(&Point::new(1, 1)), Err(GridError::OnObstacle));
    assert_eq!(grid.set_end(&Point::new(0, 9)), Err(GridError::OutOfBounds));
    assert_eq!(grid.get_block(&Point::new(1, 1)), Ok(GridBlock::Obstacle));
}

#[test]
fn surrounding_blocks_at_corner_and_center() {
    let grid = GridMap::new(GridSize::new(5, 5));
    let corner = grid.get_surrounding_blocks(&Point::new(0, 0));
    assert_eq!(corner.len(), 2);
    let center = grid.get_surrounding_blocks(&Point::new(2, 2));
    assert_eq!(center.len(), 4);
    // fixed enumeration order: up, down, left, right
    assert_eq!(center[0].1, Point::new(2, 1));
    assert_eq!(center[1].1, Point::new(2, 3));
    assert_eq!(center[2].1, Point::new(1, 2));
    assert_eq!(center[3].1, Point::new(3, 2));
}

#[test]
fn surrounding_blocks_pair_each_neighbor_with_its_block() {
    let mut grid = GridMap::new(GridSize::new(5, 5));
    grid.set_block(&Point::new(2, 1), &GridBlock::Obstacle).unwrap();
    let nbrs = grid.get_surrounding_blocks(&Point::new(2, 2));
    assert_eq!(nbrs[0], (GridBlock::Obstacle, Point::new(2, 1)));
    assert_eq!(nbrs[1], (GridBlock::Empty, Point::new(2, 3)));
}

#[test]
fn check_endpoints_cases() {
    let mut grid = GridMap::new(GridSize::new(5, 5));
    grid.set_block(&Point::new(3, 3), &GridBlock::Obstacle).unwrap();
    assert!(grid.check_endpoints(&Point::new(0, 0), &Point::new(4, 4)));
    assert!(!grid.check_endpoints(&Point::new(0, 0), &Point::new(0, 0)));
    assert!(!grid.check_endpoints(&Point::new(0, 0), &Point::new(3, 3)));
    assert!(!grid.check_endpoints(&Point::new(3, 3), &Point::new(0, 0)));
    assert!(!grid.check_endpoints(&Point::new(5, 0), &Point::new(0, 0)));
    assert!(!grid.check_endpoints(&Point::new(0, 0), &Point::new(0, 5)));
}

#[test]
fn block_glyphs_and_names() {
    assert_eq!(GridBlock::Start.to_visual_block(), "▣");
    assert_eq!(GridBlock::End.to_visual_block(), "▢");
    assert_eq!(GridBlock::Obstacle.to_visual_block(), "■");
    assert_eq!(GridBlock::Path.to_visual_block(), "⊡");
    assert_eq!(GridBlock::Empty.to_visual_block(), "•");
    assert_eq!(GridBlock::Start.to_name(), "Start");
    assert_eq!(GridBlock::End.to_name(), "End");
    assert_eq!(GridBlock::Obstacle.to_name(), "Obstacle");
    assert_eq!(GridBlock::Path.to_name(), "Path");
    assert_eq!(GridBlock::Empty.to_name(), "Empty");
    assert_eq!(GridBlock::Path.to_block(), GridBlock::Path);
}
