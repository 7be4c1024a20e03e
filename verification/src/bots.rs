//! Agents that decide which action a robot takes next.

use vstd::prelude::*;

use crate::action::Action;
use crate::entity::{Goal, Warehouse, WarehouseView};
use crate::grid::{abs_int, manhattan_spec, Position};
use crate::rng::random_below;
use crate::types::Direction;
use crate::simulation::{
    goal_matches, is_first_where, lemma_some_first_where, robot_has_id, shelf_is_at, step_spec,
    move_delta, first_where, lemma_first_where_is, lemma_first_where_none, robot_index};

verus! {

/// An agent that can control a robot in the warehouse simulation.
pub trait Agent {
    /// Decide on an action given the current warehouse state and the robot's id.
    fn act(&self, warehouse: &Warehouse, robot_id: usize) -> Action;
}

// ---------------------------------------------------------------------------
// Random agent
// ---------------------------------------------------------------------------

/// An agent that selects among the movement, pick and place actions uniformly
/// at random.
pub struct RandomAgent;

/// The action that the random agent takes for a draw `k` from `0..6`.
pub open spec fn random_action_spec(k: usize) -> Action {
    if k == 0 {
        Action::MoveUp
    } else if k == 1 {
        Action::MoveDown
    } else if k == 2 {
        Action::MoveLeft
    } else if k == 3 {
        Action::MoveRight
    } else if k == 4 {
        Action::Pick
    } else {
        Action::Place
    }
}

/// Maps a draw `k` to an action: 0 up, 1 down, 2 left, 3 right, 4 pick, and
/// anything else place.
pub fn random_action_for(k: usize) -> (a: Action)
    ensures
        a == random_action_spec(k),
{
    if k == 0 {
        Action::MoveUp
    } else if k == 1 {
        Action::MoveDown
    } else if k == 2 {
        Action::MoveLeft
    } else if k == 3 {
        Action::MoveRight
    } else if k == 4 {
        Action::Pick
    } else {
        Action::Place
    }
}

impl RandomAgent {
    pub fn new() -> (a: Self) {
        RandomAgent
    }
}

impl Agent for RandomAgent {
    /// One of the six actions that do not turn, chosen at random.
    fn act(&self, _warehouse: &Warehouse, _robot_id: usize) -> (a: Action)
        ensures
            exists|k: usize| k < 6 && a == random_action_spec(k),
    {
        let k = random_below(6);
        random_action_for(k)
    }
}

// ---------------------------------------------------------------------------
// Greedy agent
// ---------------------------------------------------------------------------

/// An agent that greedily moves towards the nearest relevant target: the
/// nearest shelf that is not yet at its goal, or the goal of the shelf it
/// carries.
pub struct GreedyAgent;

/// The movement that heads from `current` towards `target`: along the axis
/// with the larger distance, vertically on a tie.
pub open spec fn move_towards_spec(current: Position, target: Position) -> Action {
    let dx = target.x - current.x;
    let dy = target.y - current.y;
    if abs_int(dx) > abs_int(dy) {
        if dx > 0 {
            Action::MoveRight
        } else {
            Action::MoveLeft
        }
    } else {
        if dy > 0 {
            Action::MoveDown
        } else {
            Action::MoveUp
        }
    }
}

/// Whether a goal has the given id.
pub open spec fn goal_has_id(id: usize) -> spec_fn(Goal) -> bool {
    |g: Goal| g.id == id
}

/// Whether shelf `k` already stands on its own goal.
pub open spec fn shelf_at_its_goal(w: WarehouseView, k: int) -> bool {
    exists|g: int|
        0 <= g < w.goals.len() && (#[trigger] w.goals[g]).pos == w.shelves[k].pos && w.goals[g].id
            == w.shelves[k].id
}

/// Shelf `k`, among the first `n`, is one still to be delivered, and no such
/// shelf among the first `n` is nearer to `p`; no earlier one is as near.
pub open spec fn is_nearest_shelf_upto(w: WarehouseView, p: Position, k: int, n: int) -> bool {
    &&& 0 <= k < n <= w.shelves.len()
    &&& !shelf_at_its_goal(w, k)
    &&& forall|j: int|
        0 <= j < n && !shelf_at_its_goal(w, j) ==> manhattan_spec(p, #[trigger] w.shelves[j].pos)
            >= manhattan_spec(p, w.shelves[k].pos)
    &&& forall|j: int|
        0 <= j < k && !shelf_at_its_goal(w, j) ==> manhattan_spec(p, #[trigger] w.shelves[j].pos)
            > manhattan_spec(p, w.shelves[k].pos)
}

/// The first of the nearest shelves to `p` that are not yet at their goal.
pub open spec fn nearest_shelf(w: WarehouseView, p: Position) -> Option<int> {
    if exists|k: int| is_nearest_shelf_upto(w, p, k, w.shelves.len() as int) {
        Some(choose|k: int| is_nearest_shelf_upto(w, p, k, w.shelves.len() as int))
    } else {
        None
    }
}

/// The action the greedy agent takes. A robot that is not in the warehouse,
/// or that has nothing left to do, moves up.
pub open spec fn greedy_action(w: WarehouseView, robot_id: usize) -> Action {
    match robot_index(w.robots, robot_id) {
        None => Action::MoveUp,
        Some(i) => {
            let r = w.robots[i];
            match r.carrying {
                Some(c) => match first_where(w.goals, goal_has_id(c)) {
                    Some(g) => if r.pos == w.goals[g].pos {
                        Action::Place
                    } else {
                        move_towards_spec(r.pos, w.goals[g].pos)
                    },
                    None => Action::MoveUp,
                },
                None => match nearest_shelf(w, r.pos) {
                    Some(k) => if r.pos == w.shelves[k].pos {
                        Action::Pick
                    } else {
                        move_towards_spec(r.pos, w.shelves[k].pos)
                    },
                    None => Action::MoveUp,
                },
            }
        },
    }
}

/// The nearest shelf is unique.
proof fn lemma_nearest_shelf_is(w: WarehouseView, p: Position, k: int)
    requires
        is_nearest_shelf_upto(w, p, k, w.shelves.len() as int),
    ensures
        nearest_shelf(w, p) == Some(k),
{
    let n = w.shelves.len() as int;
    let k2 = choose|k2: int| is_nearest_shelf_upto(w, p, k2, n);
    assert(is_nearest_shelf_upto(w, p, k2, n));
    if k2 < k {
        assert(manhattan_spec(p, w.shelves[k2].pos) > manhattan_spec(p, w.shelves[k].pos));
    } else if k2 > k {
        assert(manhattan_spec(p, w.shelves[k].pos) > manhattan_spec(p, w.shelves[k2].pos));
    }
}

/// Manhattan distance, computed without overflow.
fn distance(a: Position, b: Position) -> (d: i64)
    ensures
        d == manhattan_spec(a, b),
{
    let dx: i64 = a.x as i64 - b.x as i64;
    let dy: i64 = a.y as i64 - b.y as i64;
    let ax: i64 = if dx < 0 { -dx } else { dx };
    let ay: i64 = if dy < 0 { -dy } else { dy };
    ax + ay
}

/// The movement that heads from `current` towards `target`: along the axis
/// with the larger distance, vertically on a tie.
pub fn move_towards(current: Position, target: Position) -> (a: Action)
    ensures
        a == move_towards_spec(current, target),
{
    let dx: i64 = target.x as i64 - current.x as i64;
    let dy: i64 = target.y as i64 - current.y as i64;
    let ax: i64 = if dx < 0 { -dx } else { dx };
    let ay: i64 = if dy < 0 { -dy } else { dy };
    if ax > ay {
        if dx > 0 {
            Action::MoveRight
        } else {
            Action::MoveLeft
        }
    } else {
        if dy > 0 {
            Action::MoveDown
        } else {
            Action::MoveUp
        }
    }
}

/// Whether shelf `k` already stands on its own goal.
fn is_at_its_goal(warehouse: &Warehouse, k: usize) -> (b: bool)
    requires
        k < warehouse.shelves@.len(),
    ensures
        b == shelf_at_its_goal(warehouse@, k as int),
{
    let shelf = warehouse.shelves[k];
    let n = warehouse.goals.len();
    let mut g: usize = 0;
    while g < n
        invariant
            n == warehouse.goals@.len(),
            g <= n,
            k < warehouse.shelves@.len(),
            shelf == warehouse.shelves@[k as int],
            forall|j: int|
                0 <= j < g ==> !((#[trigger] warehouse.goals@[j]).pos == shelf.pos
                    && warehouse.goals@[j].id == shelf.id),
        decreases n - g,
    {
        if warehouse.goals[g].pos == shelf.pos && warehouse.goals[g].id == shelf.id {
            assert(warehouse@.goals[g as int] == warehouse.goals@[g as int]);
            return true;
        }
        g = g + 1;
    }
    false
}

/// The first of the nearest shelves to `p` that are not yet at their goal.
fn find_nearest_shelf(warehouse: &Warehouse, p: Position) -> (r: Option<usize>)
    ensures
        match r {
            Some(k) => nearest_shelf(warehouse@, p) == Some(k as int),
            None => nearest_shelf(warehouse@, p) is None,
        },
{
    let n = warehouse.shelves.len();
    let mut best: Option<usize> = None;
    let mut best_dist: i64 = 0;
    let mut i: usize = 0;
    while i < n
        invariant
            n == warehouse.shelves@.len(),
            i <= n,
            match best {
                Some(k) => is_nearest_shelf_upto(warehouse@, p, k as int, i as int) && best_dist
                    == manhattan_spec(p, warehouse@.shelves[k as int].pos),
                None => forall|j: int| 0 <= j < i ==> shelf_at_its_goal(warehouse@, j),
            },
        decreases n - i,
    {
        if !is_at_its_goal(warehouse, i) {
            let d = distance(p, warehouse.shelves[i].pos);
            match best {
                Some(k) => {
                    if d < best_dist {
                        best = Some(i);
                        best_dist = d;
                    }
                },
                None => {
                    best = Some(i);
                    best_dist = d;
                },
            }
        }
        i = i + 1;
    }
    match best {
        Some(k) => {
            proof {
                lemma_nearest_shelf_is(warehouse@, p, k as int);
            }
        },
        None => {
            proof {
                if exists|k: int| is_nearest_shelf_upto(warehouse@, p, k, n as int) {
                    let k = choose|k: int| is_nearest_shelf_upto(warehouse@, p, k, n as int);
                    assert(shelf_at_its_goal(warehouse@, k));
                }
            }
        },
    }
    best
}

/// Finds the index of the first goal with the given id.
fn find_goal_with_id(goals: &Vec<Goal>, id: usize) -> (r: Option<usize>)
    ensures
        match r {
            Some(g) => first_where(goals@, goal_has_id(id)) == Some(g as int),
            None => first_where(goals@, goal_has_id(id)) is None,
        },
{
    let n = goals.len();
    let mut g: usize = 0;
    while g < n
        invariant
            n == goals@.len(),
            g <= n,
            forall|j: int| 0 <= j < g ==> !goal_has_id(id)(#[trigger] goals@[j]),
        decreases n - g,
    {
        if goals[g].id == id {
            proof {
                lemma_first_where_is(goals@, goal_has_id(id), g as int);
            }
            return Some(g);
        }
        g = g + 1;
    }
    proof {
        lemma_first_where_none(goals@, goal_has_id(id));
    }
    None
}

impl GreedyAgent {
    pub fn new() -> (a: Self) {
        GreedyAgent
    }
}

impl Agent for GreedyAgent {
    /// The greedy action: place on the matching goal or head for it when
    /// carrying a shelf; otherwise pick up the nearest shelf that is not at
    /// its goal, or head for it.
    fn act(&self, warehouse: &Warehouse, robot_id: usize) -> (a: Action)
        ensures
            a == greedy_action(warehouse@, robot_id),
    {
        let idx = match crate::simulation::find_robot(&warehouse.robots, robot_id) {
            Some(i) => i,
            None => {
                return Action::MoveUp;
            },
        };
        let robot = warehouse.robots[idx];
        match robot.carrying {
            Some(shelf_id) => {
                match find_goal_with_id(&warehouse.goals, shelf_id) {
                    Some(g) => {
                        let goal = warehouse.goals[g];
                        if robot.pos == goal.pos {
                            return Action::Place;
                        }
                        move_towards(robot.pos, goal.pos)
                    },
                    None => Action::MoveUp,
                }
            },
            None => {
                match find_nearest_shelf(warehouse, robot.pos) {
                    Some(k) => {
                        let shelf = warehouse.shelves[k];
                        if robot.pos == shelf.pos {
                            return Action::Pick;
                        }
                        move_towards(robot.pos, shelf.pos)
                    },
                    None => Action::MoveUp,
                }
            },
        }
    }
}

/// Heading towards a different cell always brings the robot one step nearer
/// to it (in Manhattan distance), whichever way the robot faces.
pub proof fn law_move_towards_approaches(current: Position, target: Position, facing: Direction)
    requires
        current != target,
    ensures
        move_delta(move_towards_spec(current, target), facing) is Some,
        ({
            let d = move_delta(move_towards_spec(current, target), facing)->Some_0;
            abs_int(target.x - (current.x + d.0)) + abs_int(target.y - (current.y + d.1))
                == manhattan_spec(current, target) - 1
        }),
{
}

/// When the greedy agent chooses to pick up a shelf, picking up succeeds; when
/// it chooses to place one, the place is a delivery: the robot is freed and
/// one goal fewer remains.
pub proof fn law_greedy_pick_and_place_succeed(w: WarehouseView, robot_id: usize)
    ensures
        greedy_action(w, robot_id) == Action::Pick ==> step_spec(w, robot_id, Action::Pick) is Ok,
        greedy_action(w, robot_id) == Action::Place ==> {
            &&& step_spec(w, robot_id, Action::Place) is Ok
            &&& step_spec(w, robot_id, Action::Place)->Ok_0.goals.len() == w.goals.len() - 1
        },
{
    if robot_index(w.robots, robot_id) is Some {
        let i = robot_index(w.robots, robot_id)->Some_0;
        assert(is_first_where(w.robots, robot_has_id(robot_id), i));
        let r = w.robots[i];
        if greedy_action(w, robot_id) == Action::Pick {
            let k = nearest_shelf(w, r.pos)->Some_0;
            assert(is_nearest_shelf_upto(w, r.pos, k, w.shelves.len() as int));
            assert(shelf_is_at(r.pos)(w.shelves[k]));
            lemma_some_first_where(w.shelves, shelf_is_at(r.pos), k);
        }
        if greedy_action(w, robot_id) == Action::Place {
            let c = r.carrying->Some_0;
            let g = first_where(w.goals, goal_has_id(c))->Some_0;
            assert(is_first_where(w.goals, goal_has_id(c), g));
            assert(goal_matches(c, r.pos)(w.goals[g]));
            lemma_some_first_where(w.goals, goal_matches(c, r.pos), g);
            let g2 = first_where(w.goals, goal_matches(c, r.pos))->Some_0;
            assert(is_first_where(w.goals, goal_matches(c, r.pos), g2));
        }
    }
}

/// A robot that carries nothing heads for (or picks up) a shelf that no goal
/// of the shelf's own id stands on, when that shelf is strictly nearer than
/// every other such shelf. A goal of another id on its cell does not make it
/// delivered.
pub proof fn law_greedy_heads_for_nearest_undelivered_shelf(w: WarehouseView, robot_id: usize, k: int)
    requires
        robot_index(w.robots, robot_id) is Some,
        w.robots[robot_index(w.robots, robot_id)->Some_0].carrying is None,
        0 <= k < w.shelves.len(),
        forall|g: int|
            0 <= g < w.goals.len() ==> !((#[trigger] w.goals[g]).pos == w.shelves[k].pos && w.goals[g].id
                == w.shelves[k].id),
        forall|j: int|
            0 <= j < w.shelves.len() && j != k ==> (exists|g: int|
                0 <= g < w.goals.len() && (#[trigger] w.goals[g]).pos == (#[trigger] w.shelves[j]).pos
                    && w.goals[g].id == w.shelves[j].id) || manhattan_spec(
                w.robots[robot_index(w.robots, robot_id)->Some_0].pos,
                w.shelves[j].pos,
            ) > manhattan_spec(w.robots[robot_index(w.robots, robot_id)->Some_0].pos, w.shelves[k].pos),
    ensures
        ({
            let p = w.robots[robot_index(w.robots, robot_id)->Some_0].pos;
            greedy_action(w, robot_id) == if p == w.shelves[k].pos {
                Action::Pick
            } else {
                move_towards_spec(p, w.shelves[k].pos)
            }
        }),
{
    let i = robot_index(w.robots, robot_id)->Some_0;
    let p = w.robots[i].pos;
    let n = w.shelves.len() as int;
    assert(!shelf_at_its_goal(w, k));
    assert forall|j: int|
        0 <= j < n && !shelf_at_its_goal(w, j) implies manhattan_spec(p, #[trigger] w.shelves[j].pos)
        >= manhattan_spec(p, w.shelves[k].pos) by {
        if j != k {
            if exists|g: int|
                0 <= g < w.goals.len() && (#[trigger] w.goals[g]).pos == w.shelves[j].pos && w.goals[g].id
                    == w.shelves[j].id {
                let g = choose|g: int|
                    0 <= g < w.goals.len() && (#[trigger] w.goals[g]).pos == w.shelves[j].pos
                        && w.goals[g].id == w.shelves[j].id;
                assert(shelf_at_its_goal(w, j));
            }
        }
    }
    assert forall|j: int|
        0 <= j < k && !shelf_at_its_goal(w, j) implies manhattan_spec(p, #[trigger] w.shelves[j].pos)
        > manhattan_spec(p, w.shelves[k].pos) by {
        if exists|g: int|
            0 <= g < w.goals.len() && (#[trigger] w.goals[g]).pos == w.shelves[j].pos && w.goals[g].id
                == w.shelves[j].id {
            let g = choose|g: int|
                0 <= g < w.goals.len() && (#[trigger] w.goals[g]).pos == w.shelves[j].pos && w.goals[g].id
                    == w.shelves[j].id;
            assert(shelf_at_its_goal(w, j));
        }
    }
    assert(is_nearest_shelf_upto(w, p, k, n));
    lemma_nearest_shelf_is(w, p, k);
}

/// Each of the six actions of the random agent comes from exactly one draw
/// below six, and no draw below six gives a turn, a forward move or a toggle.
pub proof fn law_random_actions_cover_six(a: Action)
    ensures
        (exists|k: usize| k < 6 && random_action_spec(k) == a) <==> (a == Action::MoveUp || a
            == Action::MoveDown || a == Action::MoveLeft || a == Action::MoveRight || a == Action::Pick
            || a == Action::Place),
{
    if a == Action::MoveUp {
        assert(random_action_spec(0) == a);
    } else if a == Action::MoveDown {
        assert(random_action_spec(1) == a);
    } else if a == Action::MoveLeft {
        assert(random_action_spec(2) == a);
    } else if a == Action::MoveRight {
        assert(random_action_spec(3) == a);
    } else if a == Action::Pick {
        assert(random_action_spec(4) == a);
    } else if a == Action::Place {
        assert(random_action_spec(5) == a);
    }
}

} // verus!
