//! The rules of one simulation step: how a robot moves, turns, picks up and
//! places shelves.

use vstd::prelude::*;

use crate::action::Action;
use crate::entity::{Goal, Robot, Shelf, Warehouse, WarehouseView};
use crate::grid::{in_bounds, in_bounds_spec, Position};
use crate::types::{turn_left_spec, turn_right_spec, vector_spec, Direction};

verus! {

// ---------------------------------------------------------------------------
// Locating entities
// ---------------------------------------------------------------------------

/// `i` is the first index of `s` whose element satisfies `f`.
pub open spec fn is_first_where<A>(s: Seq<A>, f: spec_fn(A) -> bool, i: int) -> bool {
    &&& 0 <= i < s.len()
    &&& f(s[i])
    &&& forall|j: int| 0 <= j < i ==> !f(#[trigger] s[j])
}

/// The first index of `s` whose element satisfies `f`, if there is one.
pub open spec fn first_where<A>(s: Seq<A>, f: spec_fn(A) -> bool) -> Option<int> {
    if exists|i: int| is_first_where(s, f, i) {
        Some(choose|i: int| is_first_where(s, f, i))
    } else {
        None
    }
}

/// There is at most one first index, so `first_where` names it.
pub proof fn lemma_first_where_is<A>(s: Seq<A>, f: spec_fn(A) -> bool, i: int)
    requires
        is_first_where(s, f, i),
    ensures
        first_where(s, f) == Some(i),
{
    let k = choose|k: int| is_first_where(s, f, k);
    assert(is_first_where(s, f, k));
    if k < i {
        assert(!f(s[k]));
    } else if k > i {
        assert(!f(s[i]));
    }
}

/// When some element satisfies `f`, there is a first index.
pub proof fn lemma_some_first_where<A>(s: Seq<A>, f: spec_fn(A) -> bool, k: int)
    requires
        0 <= k < s.len(),
        f(s[k]),
    ensures
        first_where(s, f) is Some,
    decreases k,
{
    if forall|j: int| 0 <= j < k ==> !f(#[trigger] s[j]) {
        assert(is_first_where(s, f, k));
    } else {
        let j = choose|j: int| 0 <= j < k && f(#[trigger] s[j]);
        lemma_some_first_where(s, f, j);
    }
}

/// When no element satisfies `f`, there is no first index.
pub proof fn lemma_first_where_none<A>(s: Seq<A>, f: spec_fn(A) -> bool)
    requires
        forall|j: int| 0 <= j < s.len() ==> !f(#[trigger] s[j]),
    ensures
        first_where(s, f) is None,
{
    if exists|i: int| is_first_where(s, f, i) {
        let i = choose|i: int| is_first_where(s, f, i);
        assert(f(s[i]));
    }
}

/// Whether a robot has the given id.
pub open spec fn robot_has_id(id: usize) -> spec_fn(Robot) -> bool {
    |r: Robot| r.id == id
}

/// Whether a shelf stands at the given position.
pub open spec fn shelf_is_at(p: Position) -> spec_fn(Shelf) -> bool {
    |s: Shelf| s.pos == p
}

/// Whether a goal is the one for shelf `shelf_id` at the given position.
pub open spec fn goal_matches(shelf_id: usize, p: Position) -> spec_fn(Goal) -> bool {
    |g: Goal| g.id == shelf_id && g.pos == p
}

/// Index of the first robot with the given id.
pub open spec fn robot_index(robots: Seq<Robot>, id: usize) -> Option<int> {
    first_where(robots, robot_has_id(id))
}

/// Whether some shelf stands at the given position.
pub open spec fn has_shelf_at(shelves: Seq<Shelf>, p: Position) -> bool {
    exists|k: int| 0 <= k < shelves.len() && (#[trigger] shelves[k]).pos == p
}

/// Whether some robot other than those with id `id` stands at the given position.
pub open spec fn other_robot_at(robots: Seq<Robot>, id: usize, p: Position) -> bool {
    exists|j: int| 0 <= j < robots.len() && (#[trigger] robots[j]).id != id && robots[j].pos == p
}

// ---------------------------------------------------------------------------
// Error messages
// ---------------------------------------------------------------------------

/// The character of a decimal digit.
pub open spec fn decimal_digit(d: int) -> char {
    (d + 48) as char
}

/// The decimal representation of a natural number, without leading zeros.
pub open spec fn decimal(n: nat) -> Seq<char>
    decreases n,
{
    if n < 10 {
        seq![decimal_digit(n as int)]
    } else {
        decimal(n / 10).push(decimal_digit((n % 10) as int))
    }
}

pub open spec fn msg_robot_not_found(robot_id: usize) -> Seq<char> {
    "Robot with id "@ + decimal(robot_id as nat) + " not found"@
}

pub open spec fn msg_out_of_bounds() -> Seq<char> {
    "Move would leave warehouse bounds"@
}

pub open spec fn msg_robot_in_the_way() -> Seq<char> {
    "Another robot occupies the target cell"@
}

pub open spec fn msg_shelf_in_the_way() -> Seq<char> {
    "Robot carrying a shelf cannot move through another shelf"@
}

pub open spec fn msg_already_carrying() -> Seq<char> {
    "Robot already carrying a shelf"@
}

pub open spec fn msg_no_shelf_here() -> Seq<char> {
    "No shelf at robot position to pick"@
}

pub open spec fn msg_not_carrying() -> Seq<char> {
    "Robot is not carrying any shelf"@
}

pub open spec fn msg_cell_has_shelf() -> Seq<char> {
    "Cannot drop shelf: cell already has a shelf"@
}

/// Formats the message for a robot id that is not in the warehouse with std's
/// `format!`. The contract claims what std documents of `Display` for
/// integers: the id is written as its decimal digits, without leading zeros,
/// between "Robot with id " and " not found".
#[verifier::external_body]
fn robot_not_found_message(robot_id: usize) -> (s: String)
    ensures
        s@ == msg_robot_not_found(robot_id),
{
    format!("Robot with id {} not found", robot_id)
}

// ---------------------------------------------------------------------------
// The rules, as functions on warehouse views
// ---------------------------------------------------------------------------

/// The warehouse with robot `i` replaced.
pub open spec fn with_robot(w: WarehouseView, i: int, r: Robot) -> WarehouseView {
    WarehouseView { robots: w.robots.update(i, r), ..w }
}

/// The displacement of a movement action for a robot facing `dir`; `None`
/// for actions that do not move the robot.
pub open spec fn move_delta(action: Action, dir: Direction) -> Option<(int, int)> {
    match action {
        Action::MoveUp => Some((0, -1)),
        Action::MoveDown => Some((0, 1)),
        Action::MoveLeft => Some((-1, 0)),
        Action::MoveRight => Some((1, 0)),
        Action::Forward => Some(vector_spec(dir)),
        _ => None,
    }
}

/// Whether an integer fits in an `i32`.
pub open spec fn fits_i32(v: int) -> bool {
    i32::MIN <= v <= i32::MAX
}

/// The position one displacement away from `p`.
pub open spec fn displaced(p: Position, d: (int, int)) -> Position {
    Position { x: (p.x + d.0) as i32, y: (p.y + d.1) as i32 }
}

/// A step is defined unless it would move a robot to a coordinate outside
/// the range of `i32`.
pub open spec fn step_precondition(w: WarehouseView, robot_id: usize, action: Action) -> bool {
    match robot_index(w.robots, robot_id) {
        Some(i) => match move_delta(action, w.robots[i].direction) {
            Some(d) => fits_i32(w.robots[i].pos.x + d.0) && fits_i32(w.robots[i].pos.y + d.1),
            None => true,
        },
        None => true,
    }
}

/// Moving robot `i` to `p`: refused when `p` is off the grid, when a robot
/// with another id stands there, or when the robot carries a shelf and a
/// shelf stands there.
pub open spec fn try_move_spec(w: WarehouseView, i: int, p: Position) -> Result<WarehouseView, Seq<char>> {
    if !in_bounds_spec(p, w.width, w.height) {
        Err(msg_out_of_bounds())
    } else if other_robot_at(w.robots, w.robots[i].id, p) {
        Err(msg_robot_in_the_way())
    } else if w.robots[i].carrying is Some && has_shelf_at(w.shelves, p) {
        Err(msg_shelf_in_the_way())
    } else {
        Ok(with_robot(w, i, Robot { pos: p, ..w.robots[i] }))
    }
}

/// Robot `i` picks up the first shelf at its position.
pub open spec fn pick_spec(w: WarehouseView, i: int) -> Result<WarehouseView, Seq<char>> {
    let r = w.robots[i];
    if r.carrying is Some {
        Err(msg_already_carrying())
    } else {
        match first_where(w.shelves, shelf_is_at(r.pos)) {
            None => Err(msg_no_shelf_here()),
            Some(k) => Ok(
                WarehouseView {
                    robots: w.robots.update(i, Robot { carrying: Some(w.shelves[k].id), ..r }),
                    shelves: w.shelves.remove(k),
                    ..w
                },
            ),
        }
    }
}

/// Robot `i` places its shelf: onto the first matching goal at its position,
/// which is then done and removed; otherwise it drops the shelf on the floor,
/// unless a shelf already stands there.
pub open spec fn place_spec(w: WarehouseView, i: int) -> Result<WarehouseView, Seq<char>> {
    let r = w.robots[i];
    match r.carrying {
        None => Err(msg_not_carrying()),
        Some(c) => match first_where(w.goals, goal_matches(c, r.pos)) {
            Some(g) => Ok(
                WarehouseView {
                    robots: w.robots.update(i, Robot { carrying: None, ..r }),
                    goals: w.goals.remove(g),
                    ..w
                },
            ),
            None => if has_shelf_at(w.shelves, r.pos) {
                Err(msg_cell_has_shelf())
            } else {
                Ok(
                    WarehouseView {
                        robots: w.robots.update(i, Robot { carrying: None, ..r }),
                        shelves: w.shelves.push(Shelf { id: c, pos: r.pos }),
                        ..w
                    },
                )
            },
        },
    }
}

/// The outcome of one action of the robot with the given id: the new state,
/// or the message of the error.
pub open spec fn step_spec(w: WarehouseView, robot_id: usize, action: Action) -> Result<
    WarehouseView,
    Seq<char>,
> {
    match robot_index(w.robots, robot_id) {
        None => Err(msg_robot_not_found(robot_id)),
        Some(i) => {
            let r = w.robots[i];
            match action {
                Action::Pick => pick_spec(w, i),
                Action::Place => place_spec(w, i),
                Action::TurnLeft => Ok(
                    with_robot(w, i, Robot { direction: turn_left_spec(r.direction), ..r }),
                ),
                Action::TurnRight => Ok(
                    with_robot(w, i, Robot { direction: turn_right_spec(r.direction), ..r }),
                ),
                Action::ToggleLoad => if r.carrying is Some {
                    place_spec(w, i)
                } else {
                    pick_spec(w, i)
                },
                _ => try_move_spec(w, i, displaced(r.pos, move_delta(action, r.direction).unwrap())),
            }
        },
    }
}

/// The state after an outcome: the new state, or the old one on an error.
pub open spec fn state_after(w: WarehouseView, s: Result<WarehouseView, Seq<char>>) -> WarehouseView {
    match s {
        Ok(v) => v,
        Err(_) => w,
    }
}

/// An executable result reports the outcome: `Ok` for a new state, and the
/// same message for an error.
pub open spec fn result_reports(r: Result<(), String>, s: Result<WarehouseView, Seq<char>>) -> bool {
    match s {
        Ok(_) => r is Ok,
        Err(m) => r matches Err(e) && e@ == m,
    }
}

// ---------------------------------------------------------------------------
// Executable step
// ---------------------------------------------------------------------------

/// Finds the index of the first robot with the given id.
pub(crate) fn find_robot(robots: &Vec<Robot>, robot_id: usize) -> (r: Option<usize>)
    ensures
        match r {
            Some(i) => robot_index(robots@, robot_id) == Some(i as int),
            None => robot_index(robots@, robot_id) is None,
        },
{
    let n = robots.len();
    let mut i: usize = 0;
    while i < n
        invariant
            n == robots@.len(),
            i <= n,
            forall|j: int| 0 <= j < i ==> !robot_has_id(robot_id)(#[trigger] robots@[j]),
        decreases n - i,
    {
        if robots[i].id == robot_id {
            proof {
                lemma_first_where_is(robots@, robot_has_id(robot_id), i as int);
            }
            return Some(i);
        }
        i = i + 1;
    }
    proof {
        lemma_first_where_none(robots@, robot_has_id(robot_id));
    }
    None
}

/// Finds the index of the first shelf at the given position.
fn find_shelf_at(shelves: &Vec<Shelf>, p: Position) -> (r: Option<usize>)
    ensures
        match r {
            Some(k) => first_where(shelves@, shelf_is_at(p)) == Some(k as int),
            None => first_where(shelves@, shelf_is_at(p)) is None && !has_shelf_at(shelves@, p),
        },
{
    let n = shelves.len();
    let mut k: usize = 0;
    while k < n
        invariant
            n == shelves@.len(),
            k <= n,
            forall|j: int| 0 <= j < k ==> !shelf_is_at(p)(#[trigger] shelves@[j]),
        decreases n - k,
    {
        if shelves[k].pos == p {
            proof {
                lemma_first_where_is(shelves@, shelf_is_at(p), k as int);
            }
            return Some(k);
        }
        k = k + 1;
    }
    proof {
        lemma_first_where_none(shelves@, shelf_is_at(p));
        assert forall|j: int| 0 <= j < shelves@.len() implies (#[trigger] shelves@[j]).pos != p by {
            assert(!shelf_is_at(p)(shelves@[j]));
        }
    }
    None
}

/// Finds the index of the first goal for shelf `shelf_id` at the given position.
fn find_goal(goals: &Vec<Goal>, shelf_id: usize, p: Position) -> (r: Option<usize>)
    ensures
        match r {
            Some(g) => first_where(goals@, goal_matches(shelf_id, p)) == Some(g as int),
            None => first_where(goals@, goal_matches(shelf_id, p)) is None,
        },
{
    let n = goals.len();
    let mut g: usize = 0;
    while g < n
        invariant
            n == goals@.len(),
            g <= n,
            forall|j: int| 0 <= j < g ==> !goal_matches(shelf_id, p)(#[trigger] goals@[j]),
        decreases n - g,
    {
        if goals[g].id == shelf_id && goals[g].pos == p {
            proof {
                lemma_first_where_is(goals@, goal_matches(shelf_id, p), g as int);
            }
            return Some(g);
        }
        g = g + 1;
    }
    proof {
        lemma_first_where_none(goals@, goal_matches(shelf_id, p));
    }
    None
}

/// Apply a single action for the robot with `robot_id`. Returns `Ok(())` on
/// success, or an `Err` whose message says why the action is illegal; on an
/// error the warehouse is left unchanged.
pub fn step(warehouse: &mut Warehouse, robot_id: usize, action: Action) -> (r: Result<(), String>)
    requires
        step_precondition(old(warehouse)@, robot_id, action),
    ensures
        result_reports(r, step_spec(old(warehouse)@, robot_id, action)),
        final(warehouse)@ == state_after(old(warehouse)@, step_spec(old(warehouse)@, robot_id, action)),
{
    let robot_idx = match find_robot(&warehouse.robots, robot_id) {
        Some(i) => i,
        None => {
            return Err(robot_not_found_message(robot_id));
        },
    };
    let robot = warehouse.robots[robot_idx];
    match action {
        Action::MoveUp => try_move(warehouse, robot_idx, Position::new(robot.pos.x, robot.pos.y - 1)),
        Action::MoveDown => try_move(warehouse, robot_idx, Position::new(robot.pos.x, robot.pos.y + 1)),
        Action::MoveLeft => try_move(warehouse, robot_idx, Position::new(robot.pos.x - 1, robot.pos.y)),
        Action::MoveRight => try_move(warehouse, robot_idx, Position::new(robot.pos.x + 1, robot.pos.y)),
        Action::Pick => pick_shelf(warehouse, robot_idx),
        Action::Place => place_shelf(warehouse, robot_idx),
        Action::TurnLeft => {
            let turned = Robot { direction: robot.direction.turn_left(), ..robot };
            warehouse.robots.set(robot_idx, turned);
            Ok(())
        },
        Action::TurnRight => {
            let turned = Robot { direction: robot.direction.turn_right(), ..robot };
            warehouse.robots.set(robot_idx, turned);
            Ok(())
        },
        Action::Forward => {
            let (dx, dy) = robot.direction.vector();
            try_move(warehouse, robot_idx, Position::new(robot.pos.x + dx, robot.pos.y + dy))
        },
        Action::ToggleLoad => {
            if robot.carrying.is_some() {
                place_shelf(warehouse, robot_idx)
            } else {
                pick_shelf(warehouse, robot_idx)
            }
        },
    }
}

/// Robot at `robot_idx` picks up the first shelf at its position.
fn pick_shelf(warehouse: &mut Warehouse, robot_idx: usize) -> (r: Result<(), String>)
    requires
        robot_idx < old(warehouse).robots@.len(),
    ensures
        result_reports(r, pick_spec(old(warehouse)@, robot_idx as int)),
        final(warehouse)@ == state_after(old(warehouse)@, pick_spec(old(warehouse)@, robot_idx as int)),
{
    let robot = warehouse.robots[robot_idx];
    if robot.carrying.is_some() {
        return Err("Robot already carrying a shelf".to_owned());
    }
    let shelf_idx = match find_shelf_at(&warehouse.shelves, robot.pos) {
        Some(k) => k,
        None => {
            return Err("No shelf at robot position to pick".to_owned());
        },
    };
    let shelf = warehouse.shelves.remove(shelf_idx);
    warehouse.robots.set(robot_idx, Robot { carrying: Some(shelf.id), ..robot });
    Ok(())
}

/// Robot at `robot_idx` places the shelf it carries.
fn place_shelf(warehouse: &mut Warehouse, robot_idx: usize) -> (r: Result<(), String>)
    requires
        robot_idx < old(warehouse).robots@.len(),
    ensures
        result_reports(r, place_spec(old(warehouse)@, robot_idx as int)),
        final(warehouse)@ == state_after(old(warehouse)@, place_spec(old(warehouse)@, robot_idx as int)),
{
    let robot = warehouse.robots[robot_idx];
    let carried = match robot.carrying {
        Some(c) => c,
        None => {
            return Err("Robot is not carrying any shelf".to_owned());
        },
    };
    match find_goal(&warehouse.goals, carried, robot.pos) {
        Some(idx) => {
            // Delivery: the goal is done and the robot is free again.
            warehouse.goals.remove(idx);
            warehouse.robots.set(robot_idx, Robot { carrying: None, ..robot });
            Ok(())
        },
        None => {
            // No matching goal here: drop the shelf, if the cell is free.
            if find_shelf_at(&warehouse.shelves, robot.pos).is_some() {
                return Err("Cannot drop shelf: cell already has a shelf".to_owned());
            }
            warehouse.robots.set(robot_idx, Robot { carrying: None, ..robot });
            warehouse.shelves.push(Shelf { id: carried, pos: robot.pos });
            Ok(())
        },
    }
}

/// Attempt to move the robot at `robot_idx` to `new_pos`.
fn try_move(warehouse: &mut Warehouse, robot_idx: usize, new_pos: Position) -> (r: Result<(), String>)
    requires
        robot_idx < old(warehouse).robots@.len(),
    ensures
        result_reports(r, try_move_spec(old(warehouse)@, robot_idx as int, new_pos)),
        final(warehouse)@ == state_after(
            old(warehouse)@,
            try_move_spec(old(warehouse)@, robot_idx as int, new_pos),
        ),
{
    if !in_bounds(&new_pos, warehouse.width, warehouse.height) {
        return Err("Move would leave warehouse bounds".to_owned());
    }
    let robot = warehouse.robots[robot_idx];
    let n = warehouse.robots.len();
    let mut j: usize = 0;
    while j < n
        invariant
            warehouse@ == old(warehouse)@,
            robot_idx < n,
            robot == warehouse.robots@[robot_idx as int],
            in_bounds_spec(new_pos, warehouse.width, warehouse.height),
            n == warehouse.robots@.len(),
            j <= n,
            forall|k: int|
                0 <= k < j ==> !((#[trigger] warehouse.robots@[k]).id != robot.id
                    && warehouse.robots@[k].pos == new_pos),
        decreases n - j,
    {
        let other = warehouse.robots[j];
        if other.id != robot.id && other.pos == new_pos {
            assert(other_robot_at(warehouse.robots@, robot.id, new_pos)) by {
                assert(warehouse.robots@[j as int] == other);
            }
            return Err("Another robot occupies the target cell".to_owned());
        }
        j = j + 1;
    }
    if robot.carrying.is_some() {
        if find_shelf_at(&warehouse.shelves, new_pos).is_some() {
            return Err("Robot carrying a shelf cannot move through another shelf".to_owned());
        }
    }
    warehouse.robots.set(robot_idx, Robot { pos: new_pos, ..robot });
    Ok(())
}

} // verus!
