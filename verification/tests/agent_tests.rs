use rware::bots::{move_towards, random_action_for};
use rware::rl::env::{action_for_index, MoveOutcome, WarehouseEnv};
use rware::rl::model::DqnModelConfig;
use rware::rl::replay::ReplayBuffer;
use rware::{Action, Agent, Direction, Goal, GreedyAgent, Position, RandomAgent, Robot, Shelf, Warehouse};

fn robot(id: usize, x: i32, y: i32) -> Robot {
    Robot { id, pos: Position::new(x, y), direction: Direction::North, carrying: None }
}

#[test]
fn move_towards_prefers_the_longer_axis() {
    assert_eq!(move_towards(Position::new(0, 0), Position::new(3, 1)), Action::MoveRight);
    assert_eq!(move_towards(Position::new(0, 0), Position::new(-3, 1)), Action::MoveLeft);
    assert_eq!(move_towards(Position::new(0, 0), Position::new(1, 3)), Action::MoveDown);
    assert_eq!(move_towards(Position::new(0, 0), Position::new(1, -3)), Action::MoveUp);
    // A tie goes vertically.
    assert_eq!(move_towards(Position::new(0, 0), Position::new(2, 2)), Action::MoveDown);
    assert_eq!(move_towards(Position::new(0, 0), Position::new(2, -2)), Action::MoveUp);
}

#[test]
fn move_towards_gets_one_step_nearer() {
    let target = Position::new(3, -2);
    let mut w = Warehouse::new(10, 10);
    w.add_robot(robot(0, 0, 0));
    for start in [Position::new(0, 0), Position::new(5, 5), Position::new(3, 4), Position::new(-1, -2)] {
        let action = move_towards(start, target);
        let next = match action {
            Action::MoveUp => Position::new(start.x, start.y - 1),
            Action::MoveDown => Position::new(start.x, start.y + 1),
            Action::MoveLeft => Position::new(start.x - 1, start.y),
            Action::MoveRight => Position::new(start.x + 1, start.y),
            _ => panic!("not a move"),
        };
        assert_eq!(next.manhattan(&target), start.manhattan(&target) - 1);
    }
}

#[test]
fn greedy_agent_delivers_a_shelf() {
    let mut w = Warehouse::new(5, 3);
    w.add_robot(robot(0, 1, 0));
    w.add_shelf(Shelf { id: 0, pos: Position::new(1, 1) });
    w.add_goal(Goal { id: 0, pos: Position::new(3, 1) });
    let agent = GreedyAgent::new();
    let mut chosen = Vec::new();
    for _ in 0..10 {
        if w.goals.is_empty() {
            break;
        }
        let action = agent.act(&w, 0);
        chosen.push(action);
        rware::step(&mut w, 0, action).unwrap();
    }
    assert_eq!(
        chosen,
        vec![Action::MoveDown, Action::Pick, Action::MoveRight, Action::MoveRight, Action::Place]
    );
    assert!(w.goals.is_empty());
    assert!(w.shelves.is_empty());
}

#[test]
fn greedy_agent_picks_the_first_nearest_shelf_not_at_its_goal() {
    let mut w = Warehouse::new(10, 10);
    w.add_robot(robot(0, 5, 5));
    // Already delivered: ignored although nearest.
    w.add_shelf(Shelf { id: 0, pos: Position::new(5, 6) });
    w.add_goal(Goal { id: 0, pos: Position::new(5, 6) });
    // Two shelves at distance 3: the first one counts.
    w.add_shelf(Shelf { id: 1, pos: Position::new(8, 5) });
    w.add_shelf(Shelf { id: 2, pos: Position::new(5, 2) });
    let agent = GreedyAgent::new();
    assert_eq!(agent.act(&w, 0), Action::MoveRight);
}

#[test]
fn greedy_agent_fallbacks() {
    let mut w = Warehouse::new(5, 5);
    let agent = GreedyAgent::new();
    // Unknown robot.
    assert_eq!(agent.act(&w, 3), Action::MoveUp);
    // Nothing to do.
    w.add_robot(robot(0, 2, 2));
    assert_eq!(agent.act(&w, 0), Action::MoveUp);
    // Carrying a shelf with no goal for it.
    w.robots[0].carrying = Some(4);
    assert_eq!(agent.act(&w, 0), Action::MoveUp);
    // Carrying a shelf and standing on its goal.
    w.add_goal(Goal { id: 4, pos: Position::new(2, 2) });
    assert_eq!(agent.act(&w, 0), Action::Place);
}

#[test]
fn random_agent_moves_picks_or_places() {
    let w = Warehouse::new(5, 5);
    let agent = RandomAgent::new();
    for _ in 0..100 {
        let a = agent.act(&w, 0);
        assert!(matches!(
            a,
            Action::MoveUp | Action::MoveDown | Action::MoveLeft | Action::MoveRight | Action::Pick | Action::Place
        ));
    }
    assert_eq!(random_action_for(0), Action::MoveUp);
    assert_eq!(random_action_for(1), Action::MoveDown);
    assert_eq!(random_action_for(2), Action::MoveLeft);
    assert_eq!(random_action_for(3), Action::MoveRight);
    assert_eq!(random_action_for(4), Action::Pick);
    assert_eq!(random_action_for(5), Action::Place);
}

#[test]
fn env_starts_at_the_origin_and_reaches_the_corner() {
    let mut env = WarehouseEnv::new(3, 2, 10);
    assert_eq!(env.robot_position(), Position::new(0, 0));
    assert_eq!(env.target_position(), Position::new(2, 1));
    assert_eq!((env.width(), env.height(), env.max_steps()), (3, 2, 10));

    let fb = env.step(0);
    assert_eq!(fb.outcome, MoveOutcome::Blocked);
    assert!(!fb.reached && !fb.done);
    let fb = env.step(3);
    assert_eq!(fb.outcome, MoveOutcome::Closer);
    let fb = env.step(2);
    assert_eq!(fb.outcome, MoveOutcome::Farther);
    env.step(3);
    env.step(3);
    let fb = env.step(1);
    assert_eq!(fb.outcome, MoveOutcome::Closer);
    assert!(fb.reached && fb.done);
    assert_eq!(env.current_step(), 6);
}

#[test]
fn env_episode_ends_at_the_step_limit() {
    let mut env = WarehouseEnv::new(4, 4, 2);
    assert!(!env.step(0).done);
    let fb = env.step(7);
    assert_eq!(fb.outcome, MoveOutcome::Blocked);
    assert!(fb.done && !fb.reached);
    env.reset();
    assert_eq!(env.current_step(), 0);
    let p = env.robot_position();
    assert!(p.x >= 0 && p.x < 4 && p.y >= 0 && p.y < 4);
}

#[test]
fn env_action_indices() {
    assert_eq!(action_for_index(0), Action::MoveUp);
    assert_eq!(action_for_index(1), Action::MoveDown);
    assert_eq!(action_for_index(2), Action::MoveLeft);
    assert_eq!(action_for_index(3), Action::MoveRight);
    assert_eq!(action_for_index(9), Action::MoveUp);
}

#[test]
fn replay_buffer_keeps_the_newest_items() {
    let mut buffer: ReplayBuffer<u32> = ReplayBuffer::new(3);
    assert_eq!(buffer.len(), 0);
    for i in 0..5 {
        buffer.push(i);
    }
    assert_eq!(buffer.len(), 3);
    let sample = buffer.sample(20);
    assert_eq!(sample.len(), 20);
    assert!(sample.iter().all(|x| (2..5).contains(x)));
    assert!(buffer.sample(0).is_empty());

    let mut tiny: ReplayBuffer<u32> = ReplayBuffer::new(0);
    tiny.push(1);
    tiny.push(2);
    assert_eq!(tiny.len(), 1);
    assert_eq!(tiny.sample(3), vec![2, 2, 2]);
}

#[test]
fn model_config_holds_layer_sizes() {
    let config = DqnModelConfig { input_size: 4, hidden_size: 64, output_size: 4 };
    assert_eq!(config.hidden_size, 64);
}

#[test]
fn replay_items_at_and_env_reset_to() {
    let mut buffer: ReplayBuffer<u32> = ReplayBuffer::new(4);
    for i in 10..14 {
        buffer.push(i);
    }
    assert_eq!(buffer.items_at(&vec![3, 0, 0, 2]), vec![13, 10, 10, 12]);

    let mut env = WarehouseEnv::new(4, 3, 5);
    env.step(3);
    env.reset_to(2, 1);
    assert_eq!(env.robot_position(), Position::new(2, 1));
    assert_eq!(env.current_step(), 0);
}
