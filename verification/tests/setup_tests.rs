use path_finder::algorithms::grid::GridMap;
use path_finder::algorithms::GridBlock;
use path_finder::algorithms::GridSize;
use path_finder::algorithms::Point;
use path_finder::display::setup::MapCrowding;
use path_finder::display::Display;
use path_finder::tui::confirm::Confirm;
use path_finder::tui::number_input::NumberInput;
use path_finder::tui::option_select::OptionSelect;
use path_finder::SetupConfig;

#[test]
fn crowding_tiers_fix_sizes_and_chance() {
    assert_eq!(MapCrowding::Low.min_obstacle_size(), 1);
    assert_eq!(MapCrowding::Medium.min_obstacle_size(), 2);
    assert_eq!(MapCrowding::High.min_obstacle_size(), 3);
    assert_eq!(MapCrowding::Low.max_obstacle_size(), 2);
    assert_eq!(MapCrowding::Medium.max_obstacle_size(), 3);
    assert_eq!(MapCrowding::High.max_obstacle_size(), 4);
    assert_eq!(MapCrowding::Low.convert_chance(), 10);
    assert_eq!(MapCrowding::Medium.convert_chance(), 20);
    assert_eq!(MapCrowding::High.convert_chance(), 35);
}

#[test]
fn obstacle_generation_terminates_and_only_adds_obstacles() {
    for crowding in [MapCrowding::Low, MapCrowding::Medium, MapCrowding::High] {
        let mut grid = GridMap::new(GridSize::new(5, 5));
        grid.set_block(&Point::new(2, 2), &GridBlock::Obstacle).unwrap();
        grid.generate_obstacles(crowding);
        // a pre-existing obstacle is never cleared
        assert_eq!(grid.get_block(&Point::new(2, 2)), Ok(GridBlock::Obstacle));
        // every cell is either untouched or turned into an obstacle
        for y in 0..5 {
            for x in 0..5 {
                let b = grid.get_block(&Point::new(x, y)).unwrap();
                assert!(b == GridBlock::Empty || b == GridBlock::Obstacle);
            }
        }
    }
}

#[test]
fn obstacle_generation_places_obstacles_on_a_large_grid() {
    let mut grid = GridMap::new(GridSize::new(50, 50));
    grid.generate_obstacles(MapCrowding::High);
    let mut obstacles = 0;
    for y in 0..50 {
        for x in 0..50 {
            if grid.get_block(&Point::new(x, y)).unwrap() == GridBlock::Obstacle {
                obstacles += 1;
            }
        }
    }
    assert!(obstacles > 0);
}

#[test]
fn placement_after_generation_keeps_endpoints() {
    let mut grid = GridMap::new(GridSize::new(10, 10));
    grid.generate_obstacles(MapCrowding::Low);
    let mut free: Vec<Point> = Vec::new();
    for y in 0..10 {
        for x in 0..10 {
            let p = Point::new(x, y);
            if grid.get_block(&p).unwrap() == GridBlock::Empty {
                free.push(p);
            }
        }
    }
    if free.len() >= 2 {
        let start = free[0];
        let end = free[free.len() - 1];
        grid.set_start(&start).unwrap();
        grid.set_end(&end).unwrap();
        assert_eq!(grid.get_block(&start), Ok(GridBlock::Start));
        assert_eq!(grid.get_block(&end), Ok(GridBlock::End));
    }
}

#[test]
fn display_height_tracking() {
    let mut display = Display::new();
    assert_eq!(display.get_height(), 0);
    display.add_height(4);
    display.add_height(3);
    assert_eq!(display.get_height(), 7);
    display.remove_height(2);
    assert_eq!(display.get_height(), 5);
    display.reset_height();
    assert_eq!(display.get_height(), 0);
}

#[test]
fn setup_config_holds_its_parts() {
    let config = SetupConfig::new(
        GridSize::new(8, 9),
        path_finder::algorithms::Algorithm::Dijkstra,
    );
    assert_eq!(config.grid_size.width, 8);
    assert_eq!(config.grid_size.height, 9);
}

#[test]
fn confirm_builder() {
    let c = Confirm::new();
    assert_eq!(c.message, "");
    assert_eq!(c.full_size, 2);
    assert!(!c.manual_clear);
    let c = c.set_message("Proceed?").manual_clear();
    assert_eq!(c.message, "Proceed?");
    assert!(c.manual_clear);
}

#[test]
fn number_input_builder_and_bounds() {
    let n = NumberInput::new();
    assert_eq!(n.min, 0);
    assert_eq!(n.max, None);
    assert_eq!(n.full_size, 3);
    assert_eq!(n.reset_size, 1);
    let n = n.set_message("Enter the grid width:").set_min(5).set_max(100);
    assert_eq!(n.message, "Enter the grid width:");
    assert!(n.accepts(5));
    assert!(n.accepts(100));
    assert!(!n.accepts(4));
    assert!(!n.accepts(101));
    let unbounded = NumberInput::new().set_min(3);
    assert!(unbounded.accepts(1000000));
    assert!(!unbounded.accepts(2));
}

#[test]
fn option_select_builder_and_navigation() {
    let o = OptionSelect::new()
        .set_title("Select an algorithm:")
        .add_option("Breadth First Search")
        .add_option("Depth First Search")
        .add_option("Dijkstra");
    assert_eq!(o.title, "Select an algorithm:");
    assert_eq!(o.options.len(), 3);
    assert_eq!(o.full_size, 4);
    assert_eq!(o.reset_size, 3);
    assert_eq!(o.next_option(0), 1);
    assert_eq!(o.next_option(2), 0);
    assert_eq!(o.previous_option(1), 0);
    assert_eq!(o.previous_option(0), 2);
    let o = o.add_option_if_true("Extra".to_string(), false);
    assert_eq!(o.options.len(), 3);
    let o = o.add_option_if_true("Extra".to_string(), true);
    assert_eq!(o.options.len(), 4);
    assert_eq!(o.options[3], "Extra");
}
