//! A single robot that must reach the far corner of the warehouse.

use vstd::prelude::*;

use crate::action::Action;
use crate::entity::{Goal, Robot, Warehouse, WarehouseView};
use crate::grid::{in_bounds_spec, manhattan_spec, Position};
use crate::laws::law_step_keeps_robots_on_grid;
use crate::rng::random_below;
use crate::simulation::{
    lemma_first_where_is, robot_has_id, state_after, step, step_precondition, step_spec,
};
use crate::types::Direction;

verus! {

/// How a step changed the robot's distance to the target.
#[derive(Debug, Clone, Copy, PartialEq, Eq, Structural)]
pub enum MoveOutcome {
    /// The move was legal and brought the robot nearer.
    Closer,
    /// The move was legal and took the robot further away.
    Farther,
    /// The move was legal and kept the distance.
    Level,
    /// The move was illegal (a wall or a collision); the robot did not move.
    Blocked,
}

/// What a step of the environment reports: how the distance changed, whether
/// the target was reached, and whether the episode is over.
#[derive(Debug, Clone, Copy, PartialEq, Eq, Structural)]
pub struct StepFeedback {
    pub outcome: MoveOutcome,
    pub reached: bool,
    pub done: bool,
}

/// The environment: one robot (id 0) and the goal at the far corner.
pub struct WarehouseEnv {
    warehouse: Warehouse,
    robot_id: usize,
    target_pos: Position,
    max_steps: usize,
    current_step: usize,
}

/// The action for an action index: 0 up, 1 down, 2 left, 3 right, and up for
/// anything else.
pub open spec fn env_action_spec(action_idx: usize) -> Action {
    if action_idx == 0 {
        Action::MoveUp
    } else if action_idx == 1 {
        Action::MoveDown
    } else if action_idx == 2 {
        Action::MoveLeft
    } else if action_idx == 3 {
        Action::MoveRight
    } else {
        Action::MoveUp
    }
}

/// How a step from `before` to `after` changed the distance to `target`.
pub open spec fn outcome_spec(legal: bool, before: Position, after: Position, target: Position) -> MoveOutcome {
    if !legal {
        MoveOutcome::Blocked
    } else if manhattan_spec(after, target) < manhattan_spec(before, target) {
        MoveOutcome::Closer
    } else if manhattan_spec(after, target) > manhattan_spec(before, target) {
        MoveOutcome::Farther
    } else {
        MoveOutcome::Level
    }
}

/// The state of a fresh environment of the given size.
pub open spec fn initial_world(width: usize, height: usize) -> WarehouseView {
    WarehouseView {
        width,
        height,
        robots: seq![
            Robot {
                id: 0,
                pos: Position { x: 0, y: 0 },
                direction: Direction::North,
                carrying: None,
            },
        ],
        shelves: Seq::empty(),
        goals: seq![Goal { id: 0, pos: corner(width, height) }],
        clock: 0,
    }
}

/// The far corner of a grid.
pub open spec fn corner(width: usize, height: usize) -> Position {
    Position { x: (width - 1) as i32, y: (height - 1) as i32 }
}

/// The action for an action index: 0 up, 1 down, 2 left, 3 right, and up for
/// anything else.
pub fn action_for_index(action_idx: usize) -> (a: Action)
    ensures
        a == env_action_spec(action_idx),
{
    if action_idx == 0 {
        Action::MoveUp
    } else if action_idx == 1 {
        Action::MoveDown
    } else if action_idx == 2 {
        Action::MoveLeft
    } else if action_idx == 3 {
        Action::MoveRight
    } else {
        Action::MoveUp
    }
}

impl WarehouseEnv {
    /// The environment's invariant: a grid of at least one cell whose
    /// `width + height` fits in an `i32`, the single robot (id 0, carrying
    /// nothing) on the grid, no shelves, and the target at the far corner.
    pub closed spec fn well_formed(self) -> bool {
        let w = self.warehouse@;
        &&& w.width >= 1
        &&& w.height >= 1
        &&& w.width + w.height <= i32::MAX
        &&& self.robot_id == 0
        &&& w.robots.len() == 1
        &&& w.robots[0].id == 0
        &&& w.robots[0].carrying is None
        &&& in_bounds_spec(w.robots[0].pos, w.width, w.height)
        &&& w.shelves.len() == 0
        &&& self.target_pos == corner(w.width, w.height)
    }

    /// The simulated warehouse.
    pub closed spec fn world(self) -> WarehouseView {
        self.warehouse@
    }

    /// The position the robot must reach.
    pub closed spec fn target(self) -> Position {
        self.target_pos
    }

    /// The number of steps after which an episode ends.
    pub closed spec fn step_limit(self) -> usize {
        self.max_steps
    }

    /// The number of steps taken in the current episode.
    pub closed spec fn steps_taken(self) -> usize {
        self.current_step
    }

    /// The robot's position.
    pub open spec fn robot_pos(self) -> Position {
        self.world().robots[0].pos
    }

    /// A fresh environment: the robot at the origin facing north, the goal at
    /// the far corner `(width - 1, height - 1)`, no step taken yet. The grid
    /// must have at least one cell and `width + height` must fit in an `i32`.
    pub fn new(width: usize, height: usize, max_steps: usize) -> (env: Self)
        requires
            width >= 1,
            height >= 1,
            width + height <= i32::MAX,
        ensures
            env.well_formed(),
            env.world() == initial_world(width, height),
            env.target() == corner(width, height),
            env.step_limit() == max_steps,
            env.steps_taken() == 0,
    {
        let mut warehouse = Warehouse::new(width, height);
        let robot_id: usize = 0;
        let target_pos = Position::new((width - 1) as i32, (height - 1) as i32);
        warehouse.add_robot(
            Robot { id: robot_id, pos: Position::new(0, 0), direction: Direction::North, carrying: None },
        );
        warehouse.add_goal(Goal { id: robot_id, pos: target_pos });
        WarehouseEnv { warehouse, robot_id, target_pos, max_steps, current_step: 0 }
    }

    /// Start a new episode: the robot is put on a random cell of the grid and
    /// the clock and the step count go back to 0.
    pub fn reset(&mut self)
        requires
            old(self).well_formed(),
        ensures
            final(self).well_formed(),
            final(self).steps_taken() == 0,
            final(self).target() == old(self).target(),
            final(self).step_limit() == old(self).step_limit(),
            in_bounds_spec(final(self).robot_pos(), old(self).world().width, old(self).world().height),
            final(self).world() == (WarehouseView {
                robots: old(self).world().robots.update(
                    0,
                    Robot { pos: final(self).robot_pos(), ..old(self).world().robots[0] },
                ),
                clock: 0,
                ..old(self).world()
            }),
    {
        let x = random_below(self.warehouse.width);
        let y = random_below(self.warehouse.height);
        self.reset_to(x, y);
    }

    /// Start a new episode with the robot on cell `(x, y)`: the clock and the
    /// step count go back to 0.
    pub fn reset_to(&mut self, x: usize, y: usize)
        requires
            old(self).well_formed(),
            x < old(self).world().width,
            y < old(self).world().height,
        ensures
            final(self).well_formed(),
            final(self).steps_taken() == 0,
            final(self).target() == old(self).target(),
            final(self).step_limit() == old(self).step_limit(),
            final(self).robot_pos() == (Position { x: x as i32, y: y as i32 }),
            final(self).world() == (WarehouseView {
                robots: old(self).world().robots.update(
                    0,
                    Robot { pos: Position { x: x as i32, y: y as i32 }, ..old(self).world().robots[0] },
                ),
                clock: 0,
                ..old(self).world()
            }),
    {
        let robot = self.warehouse.robots[0];
        self.warehouse.robots.set(0, Robot { pos: Position::new(x as i32, y as i32), ..robot });
        self.warehouse.reset_clock();
        self.current_step = 0;
    }

    /// Take one step with the action of the given index, and report how it
    /// went: an illegal move leaves the robot where it was; the episode is
    /// done when the robot reaches the target or the step limit is reached.
    pub fn step(&mut self, action_idx: usize) -> (fb: StepFeedback)
        requires
            old(self).well_formed(),
            old(self).steps_taken() < usize::MAX,
        ensures
            final(self).well_formed(),
            ({
                let s = step_spec(old(self).world(), 0, env_action_spec(action_idx));
                &&& final(self).world() == state_after(old(self).world(), s)
                &&& fb.outcome == outcome_spec(s is Ok, old(self).robot_pos(), final(self).robot_pos(), old(self).target())
                &&& fb.reached == (s is Ok && final(self).robot_pos() == old(self).target())
            }),
            final(self).steps_taken() == old(self).steps_taken() + 1,
            final(self).target() == old(self).target(),
            final(self).step_limit() == old(self).step_limit(),
            fb.done == (fb.reached || final(self).steps_taken() >= final(self).step_limit()),
            in_bounds_spec(final(self).robot_pos(), old(self).world().width, old(self).world().height),
    {
        proof {
            lemma_first_where_is(self.warehouse@.robots, robot_has_id(0), 0);
        }
        let action = action_for_index(action_idx);
        let target = self.target_pos;
        let prev_dist = self.warehouse.robots[0].pos.manhattan(&target);
        let ghost before = self.warehouse@;
        assert(step_precondition(before, 0, action));
        proof {
            law_step_keeps_robots_on_grid(before, 0, action);
        }
        let result = step(&mut self.warehouse, self.robot_id, action);
        self.current_step = self.current_step + 1;
        let mut outcome = MoveOutcome::Blocked;
        let mut reached = false;
        match result {
            Ok(_) => {
                let new_dist = self.warehouse.robots[0].pos.manhattan(&target);
                if new_dist < prev_dist {
                    outcome = MoveOutcome::Closer;
                } else if new_dist > prev_dist {
                    outcome = MoveOutcome::Farther;
                } else {
                    outcome = MoveOutcome::Level;
                }
                if new_dist == 0 {
                    reached = true;
                }
            },
            Err(_) => {},
        }
        let done = reached || self.current_step >= self.max_steps;
        StepFeedback { outcome, reached, done }
    }

    /// The robot's position.
    pub fn robot_position(&self) -> (p: Position)
        requires
            self.well_formed(),
        ensures
            p == self.robot_pos(),
    {
        self.warehouse.robots[0].pos
    }

    /// The position the robot must reach.
    pub fn target_position(&self) -> (p: Position)
        ensures
            p == self.target(),
    {
        self.target_pos
    }

    /// The width of the grid.
    pub fn width(&self) -> (w: usize)
        ensures
            w == self.world().width,
    {
        self.warehouse.width
    }

    /// The height of the grid.
    pub fn height(&self) -> (h: usize)
        ensures
            h == self.world().height,
    {
        self.warehouse.height
    }

    /// The number of steps taken in the current episode.
    pub fn current_step(&self) -> (n: usize)
        ensures
            n == self.steps_taken(),
    {
        self.current_step
    }

    /// The number of steps after which an episode ends.
    pub fn max_steps(&self) -> (n: usize)
        ensures
            n == self.step_limit(),
    {
        self.max_steps
    }
}

} // verus!
