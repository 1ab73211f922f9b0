use biosim::grid::{Grid, BARRIER_CELL, EMPTY_CELL};
use biosim::sensor_actions::{
    count_occupied_in_neighborhood, long_probe_barrier_forward_sensor,
    long_probe_population_forward_sensor, short_probe_barrier_counts,
};
use biosim::signals::Signals;
use biosim::types::{Compass, Coord, Dir};
use biosim::world::World;

#[test]
fn test_grid_cells() {
    let mut grid = Grid::new(4, 3);
    assert_eq!(grid.width, 4);
    assert_eq!(grid.height, 3);
    assert!(grid.is_empty_at(Coord(2, 1)));
    grid.set_at(2, 1, 7);
    assert_eq!(grid.at(2, 1), 7);
    assert_eq!(grid.at_coord(Coord(2, 1)), 7);
    assert!(grid.is_occupied_at(Coord(2, 1)));
    assert!(!grid.is_empty_at(Coord(2, 1)));
    assert!(grid.is_empty_at(Coord(0, 0)));
    grid.set_at_coord(Coord(3, 2), BARRIER_CELL);
    assert!(grid.is_barrier_at(Coord(3, 2)));
    assert!(!grid.is_occupied_at(Coord(3, 2)));
    assert!(grid.is_border_at(Coord(0, 1)));
    assert!(!grid.is_border_at(Coord(2, 1)));
    assert!(grid.is_in_bounds(Coord(3, 2)));
    assert!(!grid.is_in_bounds(Coord(4, 0)));
    assert!(!grid.is_in_bounds(Coord(-1, 0)));
    assert_eq!(grid.count_empty(), 10);
    grid.zero_fill();
    assert_eq!(grid.count_empty(), 12);
    assert_eq!(grid.at(2, 1), EMPTY_CELL);
}

#[test]
fn test_find_random_empty_location_last_cell() {
    let mut grid = Grid::new(2, 2);
    grid.set_at(0, 0, 1);
    grid.set_at(0, 1, 2);
    grid.set_at(1, 0, 3);
    let free = grid.find_random_empty_location();
    assert_eq!(free, Coord(1, 1));
}

#[test]
fn test_long_probe_population() {
    let mut world = World::new(10, 1);
    world.set_at_coord(Coord(5, 0), 7);
    let east = Dir(Compass::East);
    // Four empty cells pass before the occupant.
    assert_eq!(long_probe_population_forward_sensor(Coord(1, 0), east, 8, &world), 4);
    // A scan that never meets anything within range reports the range.
    assert_eq!(long_probe_population_forward_sensor(Coord(1, 0), east, 3, &world), 3);
    // A scan that runs off the grid reports the range.
    assert_eq!(long_probe_population_forward_sensor(Coord(7, 0), east, 8, &world), 8);
    // A barrier ahead also reports the range.
    world.set_at_coord(Coord(3, 0), BARRIER_CELL);
    assert_eq!(long_probe_population_forward_sensor(Coord(1, 0), east, 8, &world), 8);
}

#[test]
fn test_long_probe_barrier() {
    let mut world = World::new(10, 1);
    world.set_at_coord(Coord(6, 0), BARRIER_CELL);
    let east = Dir(Compass::East);
    // Four passable cells pass before the barrier.
    assert_eq!(long_probe_barrier_forward_sensor(Coord(2, 0), east, 8, &world), 4);
    // Occupants do not stop the barrier scan.
    world.set_at_coord(Coord(4, 0), 3);
    assert_eq!(long_probe_barrier_forward_sensor(Coord(2, 0), east, 8, &world), 4);
    // Running off the grid reports the range.
    assert_eq!(long_probe_barrier_forward_sensor(Coord(7, 0), east, 8, &world), 8);
}

#[test]
fn test_short_probe_barrier_counts() {
    let mut world = World::new(12, 1);
    world.set_at_coord(Coord(8, 0), BARRIER_CELL);
    let east = Dir(Compass::East);
    let (forward, backward) = short_probe_barrier_counts(Coord(5, 0), east, 2, &world);
    // Forward: cells 6 and 7 are passable within range two.
    assert_eq!(forward, 2);
    // Backward: cells 4 and 3 are passable within range two.
    assert_eq!(backward, 2);
    let (forward2, backward2) = short_probe_barrier_counts(Coord(6, 0), east, 4, &world);
    // Forward meets the barrier one cell ahead.
    assert_eq!(forward2, 1);
    // Backward runs for the full range.
    assert_eq!(backward2, 4);
}

#[test]
fn test_count_occupied_in_neighborhood() {
    let mut world = World::new(5, 5);
    world.set_at_coord(Coord(1, 1), 1);
    world.set_at_coord(Coord(0, 1), 2);
    world.set_at_coord(Coord(4, 4), 3);
    world.set_at_coord(Coord(2, 2), BARRIER_CELL);
    // The full square around (1, 1) lies on the grid; barriers do not
    // count as occupants.
    let (checked, occupied) = count_occupied_in_neighborhood(&world, Coord(1, 1), 1);
    assert_eq!(checked, 9);
    assert_eq!(occupied, 2);
    // A corner square is clipped to four cells.
    let (checked_corner, occupied_corner) = count_occupied_in_neighborhood(&world, Coord(0, 0), 1);
    assert_eq!(checked_corner, 4);
    assert_eq!(occupied_corner, 2);
}

#[test]
fn test_signals_get_set() {
    let mut signals = Signals::new(2, 6, 4);
    assert_eq!(signals.get(0, Coord(3, 2)), 0);
    signals.set(0, Coord(3, 2), 9);
    assert_eq!(signals.get(0, Coord(3, 2)), 9);
    assert_eq!(signals.get(1, Coord(3, 2)), 0);
}

#[test]
fn test_world_occupancy_queries() {
    let mut world = World::new(3, 3);
    world.set_at_coord(Coord(1, 1), 5);
    world.set_at_coord(Coord(2, 2), BARRIER_CELL);
    assert!(world.is_occupied_at(Coord(1, 1)));
    assert!(world.is_barrier_at(Coord(2, 2)));
    assert!(world.is_empty_at(Coord(0, 0)));
    assert!(!world.is_occupied_at(Coord(2, 2)));
    assert_eq!(world.at_coord(Coord(1, 1)), 5);
}
