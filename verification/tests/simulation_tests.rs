use rware::grid::in_bounds;
use rware::{
    step, step_single_with_clock, step_with_clock, Action, Direction, Goal, Position, Robot,
    Shelf, Warehouse,
};

fn robot(id: usize, x: i32, y: i32, direction: Direction) -> Robot {
    Robot { id, pos: Position::new(x, y), direction, carrying: None }
}

#[test]
fn test_clock_advances() {
    let mut warehouse = Warehouse::new(5, 5);
    warehouse.add_robot(Robot { id: 0, pos: Position::new(1, 1), direction: Direction::North, carrying: None });

    assert_eq!(warehouse.current_time(), 0);

    step_single_with_clock(&mut warehouse, 0, Action::MoveRight).unwrap();
    assert_eq!(warehouse.current_time(), 1);

    step_single_with_clock(&mut warehouse, 0, Action::MoveRight).unwrap();
    assert_eq!(warehouse.current_time(), 2);
}

#[test]
fn test_simultaneous_actions() {
    let mut warehouse = Warehouse::new(5, 5);
    warehouse.add_robot(Robot { id: 0, pos: Position::new(1, 1), direction: Direction::North, carrying: None });
    warehouse.add_robot(Robot { id: 1, pos: Position::new(3, 3), direction: Direction::North, carrying: None });

    let actions = vec![(0, Action::MoveRight), (1, Action::MoveLeft)];

    let results = step_with_clock(&mut warehouse, actions);

    assert_eq!(results.len(), 2);
    assert!(results[0].is_ok());
    assert!(results[1].is_ok());
    assert_eq!(warehouse.current_time(), 1);
    assert_eq!(warehouse.robots[0].pos, Position::new(2, 1));
    assert_eq!(warehouse.robots[1].pos, Position::new(2, 3));
}

#[test]
fn test_movement_and_pick_place() {
    let mut warehouse = Warehouse::new(5, 5);
    warehouse.add_robot(Robot {
        id: 0,
        pos: Position::new(1, 1),
        direction: Direction::East,
        carrying: None,
    });
    warehouse.add_shelf(Shelf { id: 0, pos: Position::new(2, 1) });
    warehouse.add_goal(Goal { id: 0, pos: Position::new(3, 1) });

    // Robot starts at (1,1) facing East.
    // Forward should move to (2,1)
    step(&mut warehouse, 0, Action::Forward).unwrap();
    assert_eq!(warehouse.robots[0].pos, Position::new(2, 1));

    // ToggleLoad should pick shelf at (2,1)
    step(&mut warehouse, 0, Action::ToggleLoad).unwrap();
    assert_eq!(warehouse.robots[0].carrying, Some(0));
    assert!(warehouse.shelves.is_empty());

    // Forward to (3,1)
    step(&mut warehouse, 0, Action::Forward).unwrap();
    assert_eq!(warehouse.robots[0].pos, Position::new(3, 1));

    // ToggleLoad should place shelf at (3,1) goal
    step(&mut warehouse, 0, Action::ToggleLoad).unwrap();
    assert!(warehouse.goals.is_empty());
    assert!(warehouse.robots[0].carrying.is_none());
}

#[test]
fn test_direction_vectors() {
    assert_eq!(Direction::North.vector(), (0, -1));
    assert_eq!(Direction::South.vector(), (0, 1));
    assert_eq!(Direction::East.vector(), (1, 0));
    assert_eq!(Direction::West.vector(), (-1, 0));
}

#[test]
fn test_direction_turns() {
    assert_eq!(Direction::North.turn_left(), Direction::West);
    assert_eq!(Direction::North.turn_right(), Direction::East);

    assert_eq!(Direction::East.turn_left(), Direction::North);
    assert_eq!(Direction::East.turn_right(), Direction::South);
}

#[test]
fn turns_undo_each_other_and_four_make_a_circle() {
    for d in [Direction::North, Direction::South, Direction::East, Direction::West] {
        assert_eq!(d.turn_right().turn_left(), d);
        assert_eq!(d.turn_left().turn_right(), d);
        assert_eq!(d.turn_right().turn_right().turn_right().turn_right(), d);
        let (dx, dy) = d.vector();
        assert_eq!(d.turn_right().vector(), (-dy, dx));
        assert_eq!(d.turn_left().vector(), (dy, -dx));
    }
}

#[test]
fn manhattan_distances() {
    let a = Position::new(1, 2);
    let b = Position::new(4, -2);
    assert_eq!(a.manhattan(&b), 7);
    assert_eq!(b.manhattan(&a), 7);
    assert_eq!(a.manhattan(&a), 0);
}

#[test]
fn bounds_checks() {
    assert!(in_bounds(&Position::new(0, 0), 3, 2));
    assert!(in_bounds(&Position::new(2, 1), 3, 2));
    assert!(!in_bounds(&Position::new(3, 1), 3, 2));
    assert!(!in_bounds(&Position::new(0, 2), 3, 2));
    assert!(!in_bounds(&Position::new(-1, 0), 3, 2));
}

#[test]
fn unknown_robot_is_reported() {
    let mut warehouse = Warehouse::new(5, 5);
    warehouse.add_robot(robot(3, 0, 0, Direction::North));
    let err = step(&mut warehouse, 42, Action::MoveRight).unwrap_err();
    assert_eq!(err, "Robot with id 42 not found");
    assert_eq!(warehouse.robots[0].pos, Position::new(0, 0));
}

#[test]
fn moving_off_the_grid_is_refused() {
    let mut warehouse = Warehouse::new(5, 5);
    warehouse.add_robot(robot(0, 0, 0, Direction::North));
    let err = step(&mut warehouse, 0, Action::MoveUp).unwrap_err();
    assert_eq!(err, "Move would leave warehouse bounds");
    let err = step(&mut warehouse, 0, Action::Forward).unwrap_err();
    assert_eq!(err, "Move would leave warehouse bounds");
    assert_eq!(warehouse.robots[0].pos, Position::new(0, 0));
}

#[test]
fn robots_do_not_collide() {
    let mut warehouse = Warehouse::new(5, 5);
    warehouse.add_robot(robot(0, 1, 1, Direction::North));
    warehouse.add_robot(robot(1, 2, 1, Direction::North));
    let err = step(&mut warehouse, 0, Action::MoveRight).unwrap_err();
    assert_eq!(err, "Another robot occupies the target cell");
    assert_eq!(warehouse.robots[0].pos, Position::new(1, 1));
}

#[test]
fn loaded_robot_cannot_cross_a_shelf_but_empty_one_can() {
    let mut warehouse = Warehouse::new(5, 5);
    warehouse.add_robot(robot(0, 1, 1, Direction::North));
    warehouse.add_shelf(Shelf { id: 5, pos: Position::new(1, 1) });
    warehouse.add_shelf(Shelf { id: 6, pos: Position::new(2, 1) });
    step(&mut warehouse, 0, Action::Pick).unwrap();
    assert_eq!(warehouse.robots[0].carrying, Some(5));
    let err = step(&mut warehouse, 0, Action::MoveRight).unwrap_err();
    assert_eq!(err, "Robot carrying a shelf cannot move through another shelf");

    let mut free = Warehouse::new(5, 5);
    free.add_robot(robot(0, 1, 1, Direction::North));
    free.add_shelf(Shelf { id: 6, pos: Position::new(2, 1) });
    step(&mut free, 0, Action::MoveRight).unwrap();
    assert_eq!(free.robots[0].pos, Position::new(2, 1));
}

#[test]
fn pick_and_place_errors() {
    let mut warehouse = Warehouse::new(5, 5);
    warehouse.add_robot(robot(0, 1, 1, Direction::North));
    assert_eq!(step(&mut warehouse, 0, Action::Pick).unwrap_err(), "No shelf at robot position to pick");
    assert_eq!(step(&mut warehouse, 0, Action::Place).unwrap_err(), "Robot is not carrying any shelf");

    warehouse.add_shelf(Shelf { id: 1, pos: Position::new(1, 1) });
    warehouse.add_shelf(Shelf { id: 2, pos: Position::new(1, 1) });
    step(&mut warehouse, 0, Action::Pick).unwrap();
    assert_eq!(warehouse.robots[0].carrying, Some(1));
    assert_eq!(step(&mut warehouse, 0, Action::Pick).unwrap_err(), "Robot already carrying a shelf");
    assert_eq!(
        step(&mut warehouse, 0, Action::Place).unwrap_err(),
        "Cannot drop shelf: cell already has a shelf"
    );
    assert_eq!(warehouse.robots[0].carrying, Some(1));
    assert_eq!(warehouse.shelves.len(), 1);
}

#[test]
fn picking_and_dropping_puts_the_shelf_back_last() {
    let mut warehouse = Warehouse::new(5, 5);
    warehouse.add_robot(robot(0, 2, 2, Direction::North));
    warehouse.add_shelf(Shelf { id: 1, pos: Position::new(2, 2) });
    warehouse.add_shelf(Shelf { id: 2, pos: Position::new(4, 4) });
    warehouse.add_goal(Goal { id: 1, pos: Position::new(0, 0) });
    step(&mut warehouse, 0, Action::Pick).unwrap();
    step(&mut warehouse, 0, Action::Place).unwrap();
    assert_eq!(warehouse.robots[0].carrying, None);
    assert_eq!(warehouse.shelves.len(), 2);
    assert_eq!(warehouse.shelves[0].id, 2);
    assert_eq!(warehouse.shelves[1].id, 1);
    assert_eq!(warehouse.shelves[1].pos, Position::new(2, 2));
    assert_eq!(warehouse.goals.len(), 1);
}

#[test]
fn shelf_balance_is_kept_through_a_delivery() {
    let mut warehouse = Warehouse::new(6, 1);
    warehouse.add_robot(robot(0, 0, 0, Direction::East));
    warehouse.add_shelf(Shelf { id: 9, pos: Position::new(1, 0) });
    warehouse.add_goal(Goal { id: 9, pos: Position::new(3, 0) });
    let balance = |w: &Warehouse| {
        let carried = w.robots.iter().filter(|r| r.carrying.is_some()).count() as i64;
        w.shelves.len() as i64 + carried - w.goals.len() as i64
    };
    let start = balance(&warehouse);
    for action in [Action::Forward, Action::Pick, Action::Forward, Action::Forward, Action::Place] {
        step(&mut warehouse, 0, action).unwrap();
        assert_eq!(balance(&warehouse), start);
    }
    assert!(warehouse.goals.is_empty());
    assert!(warehouse.shelves.is_empty());
}

#[test]
fn turning_changes_only_the_direction() {
    let mut warehouse = Warehouse::new(5, 5);
    warehouse.add_robot(robot(0, 2, 2, Direction::North));
    step(&mut warehouse, 0, Action::TurnRight).unwrap();
    assert_eq!(warehouse.robots[0].direction, Direction::East);
    step(&mut warehouse, 0, Action::Forward).unwrap();
    assert_eq!(warehouse.robots[0].pos, Position::new(3, 2));
    step(&mut warehouse, 0, Action::TurnLeft).unwrap();
    step(&mut warehouse, 0, Action::TurnLeft).unwrap();
    assert_eq!(warehouse.robots[0].direction, Direction::West);
    assert_eq!(warehouse.robots[0].pos, Position::new(3, 2));
}

#[test]
fn refused_actions_still_advance_the_clock() {
    let mut warehouse = Warehouse::new(2, 2);
    warehouse.add_robot(robot(0, 0, 0, Direction::North));
    warehouse.add_robot(robot(1, 1, 0, Direction::North));
    let results = step_with_clock(&mut warehouse, vec![(0, Action::MoveRight), (1, Action::MoveDown), (0, Action::MoveRight), (7, Action::Pick)]);
    assert_eq!(results.len(), 4);
    assert!(results[0].is_err());
    assert!(results[1].is_ok());
    assert!(results[2].is_ok());
    assert_eq!(results[3].clone().unwrap_err(), "Robot with id 7 not found");
    assert_eq!(warehouse.robots[0].pos, Position::new(1, 0));
    assert_eq!(warehouse.robots[1].pos, Position::new(1, 1));
    assert_eq!(warehouse.current_time(), 1);
    let r = step_single_with_clock(&mut warehouse, 0, Action::MoveUp);
    assert!(r.is_err());
    assert_eq!(warehouse.current_time(), 2);
    warehouse.reset_clock();
    assert_eq!(warehouse.current_time(), 0);
    warehouse.tick();
    assert_eq!(warehouse.current_time(), 1);
}

#[test]
fn shelf_ids_are_conserved() {
    let mut warehouse = Warehouse::new(4, 1);
    warehouse.add_robot(robot(0, 1, 0, Direction::East));
    warehouse.add_shelf(Shelf { id: 8, pos: Position::new(1, 0) });
    warehouse.add_shelf(Shelf { id: 4, pos: Position::new(2, 0) });
    warehouse.add_goal(Goal { id: 8, pos: Position::new(3, 0) });
    let ids = |w: &Warehouse| {
        let mut v: Vec<usize> = w.shelves.iter().map(|s| s.id).collect();
        v.extend(w.robots.iter().filter_map(|r| r.carrying));
        v.sort();
        v
    };
    step(&mut warehouse, 0, Action::Pick).unwrap();
    assert_eq!(warehouse.robots[0].carrying, Some(8));
    assert_eq!(ids(&warehouse), vec![4, 8]);
    // Carrying shelf 8, the robot cannot pass shelf 4.
    assert!(step(&mut warehouse, 0, Action::Forward).is_err());
    assert_eq!(ids(&warehouse), vec![4, 8]);
    // Dropping and picking again keeps the ids.
    step(&mut warehouse, 0, Action::Place).unwrap();
    assert_eq!(ids(&warehouse), vec![4, 8]);
    step(&mut warehouse, 0, Action::Pick).unwrap();
    assert_eq!(ids(&warehouse), vec![4, 8]);
}

#[test]
fn bounds_use_the_full_grid_size() {
    assert!(in_bounds(&Position::new(1, 0), 3_000_000_000, 1));
    assert!(!in_bounds(&Position::new(1, 1), 3_000_000_000, 1));
    let mut warehouse = Warehouse::new(3_000_000_000, 1);
    warehouse.add_robot(robot(0, 0, 0, Direction::East));
    step(&mut warehouse, 0, Action::MoveRight).unwrap();
    assert_eq!(warehouse.robots[0].pos, Position::new(1, 0));
}

#[test]
fn forward_and_toggle_act_as_their_counterparts() {
    for d in [Direction::North, Direction::South, Direction::East, Direction::West] {
        let mut a = Warehouse::new(5, 5);
        a.add_robot(robot(0, 2, 2, d));
        let mut b = a.clone();
        let m = match d {
            Direction::North => Action::MoveUp,
            Direction::South => Action::MoveDown,
            Direction::East => Action::MoveRight,
            Direction::West => Action::MoveLeft,
        };
        assert_eq!(step(&mut a, 0, Action::Forward), step(&mut b, 0, m));
        assert_eq!(a.robots[0].pos, b.robots[0].pos);
    }
    let mut a = Warehouse::new(5, 5);
    a.add_robot(robot(0, 2, 2, Direction::North));
    a.add_shelf(Shelf { id: 3, pos: Position::new(2, 2) });
    step(&mut a, 0, Action::ToggleLoad).unwrap();
    assert_eq!(a.robots[0].carrying, Some(3));
    step(&mut a, 0, Action::ToggleLoad).unwrap();
    assert_eq!(a.robots[0].carrying, None);
    assert_eq!(a.shelves.len(), 1);
}

#[test]
fn shelves_never_stack() {
    let mut warehouse = Warehouse::new(3, 1);
    warehouse.add_robot(robot(0, 0, 0, Direction::East));
    warehouse.add_shelf(Shelf { id: 1, pos: Position::new(0, 0) });
    warehouse.add_shelf(Shelf { id: 2, pos: Position::new(1, 0) });
    step(&mut warehouse, 0, Action::Pick).unwrap();
    // A loaded robot cannot bring its shelf onto another one.
    let err = step(&mut warehouse, 0, Action::MoveRight).unwrap_err();
    assert_eq!(err, "Robot carrying a shelf cannot move through another shelf");
    // Nor drop it where a shelf already stands.
    warehouse.add_shelf(Shelf { id: 3, pos: Position::new(0, 0) });
    let err = step(&mut warehouse, 0, Action::Place).unwrap_err();
    assert_eq!(err, "Cannot drop shelf: cell already has a shelf");
    assert_eq!(warehouse.shelves.len(), 2);
    assert_eq!(warehouse.robots[0].carrying, Some(1));
}
