use rware::{step, Agent, Direction, GreedyAgent, Position, Warehouse};

const README_MAP: &str = "
    .R...
    .S.G.
    .....
    ";

#[test]
fn readme_map_is_read() {
    let warehouse = Warehouse::from_ascii(README_MAP).unwrap();
    assert_eq!(warehouse.width, 5);
    assert_eq!(warehouse.height, 3);
    assert_eq!(warehouse.robots.len(), 1);
    assert_eq!(warehouse.robots[0].id, 0);
    assert_eq!(warehouse.robots[0].pos, Position::new(1, 0));
    assert_eq!(warehouse.robots[0].direction, Direction::North);
    assert_eq!(warehouse.robots[0].carrying, None);
    assert_eq!(warehouse.shelves.len(), 1);
    assert_eq!(warehouse.shelves[0].pos, Position::new(1, 1));
    assert_eq!(warehouse.goals.len(), 1);
    assert_eq!(warehouse.goals[0].pos, Position::new(3, 1));
    assert_eq!(warehouse.shelves[0].id, warehouse.goals[0].id);
    assert_eq!(warehouse.current_time(), 0);
}

#[test]
fn shelf_on_goal_and_numbering() {
    let warehouse = Warehouse::from_ascii("RSX\r\n\n\tGR.  \n").unwrap();
    assert_eq!((warehouse.width, warehouse.height), (3, 2));
    let robots: Vec<(usize, Position)> = warehouse.robots.iter().map(|r| (r.id, r.pos)).collect();
    assert_eq!(robots, vec![(0, Position::new(0, 0)), (1, Position::new(1, 1))]);
    let shelves: Vec<(usize, Position)> = warehouse.shelves.iter().map(|s| (s.id, s.pos)).collect();
    assert_eq!(shelves, vec![(0, Position::new(1, 0)), (1, Position::new(2, 0))]);
    let goals: Vec<(usize, Position)> = warehouse.goals.iter().map(|g| (g.id, g.pos)).collect();
    assert_eq!(goals, vec![(0, Position::new(2, 0)), (1, Position::new(0, 1))]);
}

#[test]
fn empty_map_gives_an_empty_warehouse() {
    let warehouse = Warehouse::from_ascii("  \n\n").unwrap();
    assert_eq!((warehouse.width, warehouse.height), (0, 0));
    assert!(warehouse.robots.is_empty() && warehouse.shelves.is_empty() && warehouse.goals.is_empty());
}

#[test]
fn malformed_maps_are_refused() {
    assert_eq!(Warehouse::from_ascii("R..\n..").unwrap_err(), "Rows of the warehouse map differ in length");
    assert_eq!(Warehouse::from_ascii("R.Q\n...").unwrap_err(), "Unknown character in the warehouse map");
    assert_eq!(Warehouse::from_ascii("R. .").unwrap_err(), "Unknown character in the warehouse map");
}

#[test]
fn greedy_agent_completes_the_readme_task() {
    let mut warehouse = Warehouse::from_ascii(README_MAP).unwrap();
    let agent = GreedyAgent::new();
    let mut steps = 0;
    while !(warehouse.shelves.is_empty() && warehouse.goals.is_empty()) {
        assert!(steps < 20);
        let action = agent.act(&warehouse, 0);
        step(&mut warehouse, 0, action).unwrap();
        steps += 1;
    }
    assert_eq!(steps, 5);
    assert_eq!(warehouse.robots[0].pos, Position::new(3, 1));
}
