//! Properties that hold of every simulation step.

use vstd::multiset::Multiset;
use vstd::prelude::*;

use crate::action::Action;
use crate::entity::{Goal, Robot, Shelf, WarehouseView};
use crate::grid::{in_bounds_spec, manhattan_spec};
use crate::simulation::{
    displaced, has_shelf_at, first_where, goal_matches, is_first_where, lemma_first_where_is, move_delta,
    other_robot_at, robot_has_id, robot_index, shelf_is_at, state_after, step_precondition, step_spec,
};
use crate::types::{turn_left_spec, turn_right_spec, Direction};

verus! {

/// Every robot stands on the grid.
pub open spec fn robots_on_grid(w: WarehouseView) -> bool {
    forall|k: int| 0 <= k < w.robots.len() ==> in_bounds_spec(#[trigger] w.robots[k].pos, w.width, w.height)
}

/// No two robots with different ids share a cell.
pub open spec fn robots_apart(robots: Seq<Robot>) -> bool {
    forall|i: int, j: int|
        0 <= i < robots.len() && 0 <= j < robots.len() && (#[trigger] robots[i]).id != (
        #[trigger] robots[j]).id ==> robots[i].pos != robots[j].pos
}

/// The number of robots that carry a shelf.
pub open spec fn carried_count(robots: Seq<Robot>) -> nat
    decreases robots.len(),
{
    if robots.len() == 0 {
        0
    } else {
        carried_count(robots.drop_last()) + if robots.last().carrying is Some {
            1nat
        } else {
            0nat
        }
    }
}

/// One if the robot carries a shelf, zero otherwise.
pub open spec fn carries(r: Robot) -> int {
    if r.carrying is Some {
        1
    } else {
        0
    }
}

/// Replacing one robot changes the count of carrying robots by the
/// difference between the two robots.
pub proof fn lemma_carried_count_update(robots: Seq<Robot>, i: int, r: Robot)
    requires
        0 <= i < robots.len(),
    ensures
        carried_count(robots.update(i, r)) == carried_count(robots) - carries(robots[i]) + carries(r),
    decreases robots.len(),
{
    let u = robots.update(i, r);
    if i == robots.len() - 1 {
        assert(u.drop_last() =~= robots.drop_last());
    } else {
        lemma_carried_count_update(robots.drop_last(), i, r);
        assert(u.drop_last() =~= robots.drop_last().update(i, r));
    }
}

/// The shape of a successful step: the same robots, in the same order, with
/// the same ids; only the acting robot can change, and its position changes
/// only by a move onto a free cell of the grid.
pub proof fn lemma_step_shape(w: WarehouseView, robot_id: usize, action: Action)
    requires
        step_spec(w, robot_id, action) is Ok,
    ensures
        ({
            let v = step_spec(w, robot_id, action)->Ok_0;
            let i = robot_index(w.robots, robot_id)->Some_0;
            &&& robot_index(w.robots, robot_id) is Some
            &&& 0 <= i < w.robots.len()
            &&& w.robots[i].id == robot_id
            &&& v.width == w.width
            &&& v.height == w.height
            &&& v.clock == w.clock
            &&& v.robots.len() == w.robots.len()
            &&& forall|k: int| 0 <= k < w.robots.len() && k != i ==> #[trigger] v.robots[k] == w.robots[k]
            &&& v.robots[i].id == w.robots[i].id
            &&& (v.robots[i].pos == w.robots[i].pos || (move_delta(action, w.robots[i].direction) is Some
                && v.robots[i].pos == displaced(
                w.robots[i].pos,
                move_delta(action, w.robots[i].direction)->Some_0,
            ) && in_bounds_spec(v.robots[i].pos, w.width, w.height) && !other_robot_at(
                w.robots,
                robot_id,
                v.robots[i].pos,
            )))
        }),
{
    let i = robot_index(w.robots, robot_id)->Some_0;
    assert(is_first_where(w.robots, robot_has_id(robot_id), i));
}

/// A step keeps every robot on the grid.
pub proof fn law_step_keeps_robots_on_grid(w: WarehouseView, robot_id: usize, action: Action)
    requires
        robots_on_grid(w),
    ensures
        robots_on_grid(state_after(w, step_spec(w, robot_id, action))),
{
    if step_spec(w, robot_id, action) is Ok {
        lemma_step_shape(w, robot_id, action);
        let v = step_spec(w, robot_id, action)->Ok_0;
        let i = robot_index(w.robots, robot_id)->Some_0;
        assert forall|k: int| 0 <= k < v.robots.len() implies in_bounds_spec(
            #[trigger] v.robots[k].pos,
            v.width,
            v.height,
        ) by {
            if k != i {
                assert(v.robots[k] == w.robots[k]);
            }
        }
    }
}

/// A step never puts two robots with different ids on the same cell.
pub proof fn law_step_keeps_robots_apart(w: WarehouseView, robot_id: usize, action: Action)
    requires
        robots_apart(w.robots),
    ensures
        robots_apart(state_after(w, step_spec(w, robot_id, action)).robots),
{
    if step_spec(w, robot_id, action) is Ok {
        lemma_step_shape(w, robot_id, action);
        let v = step_spec(w, robot_id, action)->Ok_0;
        let i = robot_index(w.robots, robot_id)->Some_0;
        assert forall|a: int, b: int|
            0 <= a < v.robots.len() && 0 <= b < v.robots.len() && (#[trigger] v.robots[a]).id != (
            #[trigger] v.robots[b]).id implies v.robots[a].pos != v.robots[b].pos by {
            assert(w.robots[a].id == v.robots[a].id);
            assert(w.robots[b].id == v.robots[b].id);
            if a == i && v.robots[i].pos != w.robots[i].pos {
                assert(v.robots[b] == w.robots[b]);
                assert(!(w.robots[b].id != robot_id && w.robots[b].pos == v.robots[i].pos));
            } else if b == i && v.robots[i].pos != w.robots[i].pos {
                assert(v.robots[a] == w.robots[a]);
                assert(!(w.robots[a].id != robot_id && w.robots[a].pos == v.robots[i].pos));
            } else {
                assert(v.robots[a].pos == w.robots[a].pos);
                assert(v.robots[b].pos == w.robots[b].pos);
            }
        }
    }
}

/// Shelves are neither created nor lost: a pick moves a shelf from the floor
/// to a robot, a drop moves it back, and a delivery consumes the carried shelf
/// together with its goal. So the number of shelves on the floor, plus the
/// number of carried shelves, minus the number of open goals, never changes.
pub proof fn law_step_balances_shelves(w: WarehouseView, robot_id: usize, action: Action)
    ensures
        ({
            let v = state_after(w, step_spec(w, robot_id, action));
            v.shelves.len() + carried_count(v.robots) - v.goals.len() == w.shelves.len()
                + carried_count(w.robots) - w.goals.len()
        }),
{
    if step_spec(w, robot_id, action) is Ok {
        let i = robot_index(w.robots, robot_id)->Some_0;
        assert(is_first_where(w.robots, robot_has_id(robot_id), i));
        let v = step_spec(w, robot_id, action)->Ok_0;
        lemma_carried_count_update(w.robots, i, v.robots[i]);
        assert(v.robots =~= w.robots.update(i, v.robots[i]));
        let r = w.robots[i];
        let place = action == Action::Place || (action == Action::ToggleLoad && r.carrying is Some);
        let pick = action == Action::Pick || (action == Action::ToggleLoad && r.carrying is None);
        if pick {
            let k = first_where(w.shelves, shelf_is_at(r.pos))->Some_0;
            assert(is_first_where(w.shelves, shelf_is_at(r.pos), k));
        } else if place {
            if first_where(w.goals, goal_matches(r.carrying->Some_0, r.pos)) is Some {
                let g = first_where(w.goals, goal_matches(r.carrying->Some_0, r.pos))->Some_0;
                assert(is_first_where(w.goals, goal_matches(r.carrying->Some_0, r.pos), g));
            }
        }
    }
}

/// A successful move takes the robot to a neighbouring cell: one step away
/// in Manhattan distance.
pub proof fn law_move_is_unit_step(w: WarehouseView, robot_id: usize, action: Action)
    requires
        step_precondition(w, robot_id, action),
        step_spec(w, robot_id, action) is Ok,
        action == Action::MoveUp || action == Action::MoveDown || action == Action::MoveLeft
            || action == Action::MoveRight || action == Action::Forward,
    ensures
        ({
            let v = step_spec(w, robot_id, action)->Ok_0;
            let i = robot_index(w.robots, robot_id)->Some_0;
            manhattan_spec(v.robots[i].pos, w.robots[i].pos) == 1
        }),
{
    let i = robot_index(w.robots, robot_id)->Some_0;
    assert(is_first_where(w.robots, robot_has_id(robot_id), i));
}

/// Turning never fails for a robot of the warehouse, and a right turn undoes
/// a left turn (and the other way round).
pub proof fn law_turns_undo(w: WarehouseView, robot_id: usize)
    requires
        robot_index(w.robots, robot_id) is Some,
    ensures
        step_spec(w, robot_id, Action::TurnLeft) is Ok,
        step_spec(w, robot_id, Action::TurnRight) is Ok,
        step_spec(step_spec(w, robot_id, Action::TurnLeft)->Ok_0, robot_id, Action::TurnRight) == Ok::<
            WarehouseView,
            Seq<char>,
        >(w),
        step_spec(step_spec(w, robot_id, Action::TurnRight)->Ok_0, robot_id, Action::TurnLeft) == Ok::<
            WarehouseView,
            Seq<char>,
        >(w),
{
    let i = robot_index(w.robots, robot_id)->Some_0;
    assert(is_first_where(w.robots, robot_has_id(robot_id), i));
    let r = w.robots[i];
    let vl = step_spec(w, robot_id, Action::TurnLeft)->Ok_0;
    let vr = step_spec(w, robot_id, Action::TurnRight)->Ok_0;
    assert(is_first_where(vl.robots, robot_has_id(robot_id), i));
    lemma_first_where_is(vl.robots, robot_has_id(robot_id), i);
    assert(is_first_where(vr.robots, robot_has_id(robot_id), i));
    lemma_first_where_is(vr.robots, robot_has_id(robot_id), i);
    assert(vl.robots.update(i, Robot { direction: turn_right_spec(turn_left_spec(r.direction)), ..r })
        =~= w.robots);
    assert(vr.robots.update(i, Robot { direction: turn_left_spec(turn_right_spec(r.direction)), ..r })
        =~= w.robots);
}

/// Picking up a shelf and dropping it again, where there is no goal for it
/// and no other shelf on the cell, gives back the robots and goals as they
/// were, and the same shelves, the dropped one now last.
pub proof fn law_pick_then_drop_restores(w: WarehouseView, robot_id: usize)
    requires
        step_spec(w, robot_id, Action::Pick) is Ok,
        ({
            let i = robot_index(w.robots, robot_id)->Some_0;
            let p = w.robots[i].pos;
            let k = first_where(w.shelves, shelf_is_at(p))->Some_0;
            &&& first_where(w.goals, goal_matches(w.shelves[k].id, p)) is None
            &&& !has_shelf_at(w.shelves.remove(k), p)
        }),
    ensures
        ({
            let i = robot_index(w.robots, robot_id)->Some_0;
            let k = first_where(w.shelves, shelf_is_at(w.robots[i].pos))->Some_0;
            let v1 = step_spec(w, robot_id, Action::Pick)->Ok_0;
            &&& step_spec(v1, robot_id, Action::Place) is Ok
            &&& step_spec(v1, robot_id, Action::Place)->Ok_0 == WarehouseView {
                shelves: w.shelves.remove(k).push(w.shelves[k]),
                ..w
            }
        }),
{
    let i = robot_index(w.robots, robot_id)->Some_0;
    assert(is_first_where(w.robots, robot_has_id(robot_id), i));
    let r = w.robots[i];
    let k = first_where(w.shelves, shelf_is_at(r.pos))->Some_0;
    assert(is_first_where(w.shelves, shelf_is_at(r.pos), k));
    let v1 = step_spec(w, robot_id, Action::Pick)->Ok_0;
    assert(is_first_where(v1.robots, robot_has_id(robot_id), i));
    lemma_first_where_is(v1.robots, robot_has_id(robot_id), i);
    let v2 = step_spec(v1, robot_id, Action::Place)->Ok_0;
    assert(v2.robots =~= w.robots);
    assert(v2.shelves =~= w.shelves.remove(k).push(w.shelves[k]));
}

/// The ids of the shelves on the floor.
pub open spec fn shelf_ids(shelves: Seq<Shelf>) -> Multiset<usize> {
    shelves.map_values(|s: Shelf| s.id).to_multiset()
}

/// The ids of the open goals.
pub open spec fn goal_ids(goals: Seq<Goal>) -> Multiset<usize> {
    goals.map_values(|g: Goal| g.id).to_multiset()
}

/// The id a robot carries, as a multiset of zero or one element.
pub open spec fn load_of(r: Robot) -> Multiset<usize> {
    match r.carrying {
        Some(c) => Multiset::singleton(c),
        None => Multiset::empty(),
    }
}

/// The ids of the shelves the robots carry.
pub open spec fn carried_ids(robots: Seq<Robot>) -> Multiset<usize>
    decreases robots.len(),
{
    if robots.len() == 0 {
        Multiset::empty()
    } else {
        carried_ids(robots.drop_last()).add(load_of(robots.last()))
    }
}

/// Replacing one robot exchanges its load in the carried ids.
pub proof fn lemma_carried_ids_update(robots: Seq<Robot>, i: int, r: Robot)
    requires
        0 <= i < robots.len(),
    ensures
        carried_ids(robots.update(i, r)).add(load_of(robots[i])) =~= carried_ids(robots).add(load_of(r)),
    decreases robots.len(),
{
    broadcast use vstd::multiset::group_multiset_axioms;

    let u = robots.update(i, r);
    assert(carried_ids(u) == carried_ids(u.drop_last()).add(load_of(u.last())));
    assert(carried_ids(robots) == carried_ids(robots.drop_last()).add(load_of(robots.last())));
    if i == robots.len() - 1 {
        assert(u.drop_last() =~= robots.drop_last());
        assert(u.last() == r);
    } else {
        lemma_carried_ids_update(robots.drop_last(), i, r);
        assert(u.drop_last() =~= robots.drop_last().update(i, r));
        assert(u.last() == robots.last());
        let a = carried_ids(u.drop_last());
        let b = carried_ids(robots.drop_last());
        assert(a.add(load_of(robots[i])) =~= b.add(load_of(r)));
        assert forall|x: usize| #[trigger] carried_ids(u).add(load_of(robots[i])).count(x)
            == carried_ids(robots).add(load_of(r)).count(x) by {
            assert(a.add(load_of(robots[i])).count(x) == b.add(load_of(r)).count(x));
        }
    }
}

/// Shelves keep their identity: the ids of the shelves on the floor and of
/// the carried shelves change only by a delivery, which removes the carried
/// id together with the id of its goal. As multisets: floor + carried +
/// old goals is the same before and after, against the new goals.
pub proof fn law_step_conserves_shelf_ids(w: WarehouseView, robot_id: usize, action: Action)
    ensures
        ({
            let v = state_after(w, step_spec(w, robot_id, action));
            shelf_ids(v.shelves).add(carried_ids(v.robots)).add(goal_ids(w.goals)) =~= shelf_ids(
                w.shelves,
            ).add(carried_ids(w.robots)).add(goal_ids(v.goals))
        }),
{
    broadcast use vstd::multiset::group_multiset_axioms;
    broadcast use vstd::seq_lib::group_to_multiset_ensures;

    if step_spec(w, robot_id, action) is Ok {
        let i = robot_index(w.robots, robot_id)->Some_0;
        assert(is_first_where(w.robots, robot_has_id(robot_id), i));
        let v = step_spec(w, robot_id, action)->Ok_0;
        let r = w.robots[i];
        assert(v.robots =~= w.robots.update(i, v.robots[i]));
        lemma_carried_ids_update(w.robots, i, v.robots[i]);
        let s0 = shelf_ids(w.shelves);
        let c0 = carried_ids(w.robots);
        let g0 = goal_ids(w.goals);
        let s1 = shelf_ids(v.shelves);
        let c1 = carried_ids(v.robots);
        let g1 = goal_ids(v.goals);
        let l0 = load_of(r);
        let l1 = load_of(v.robots[i]);
        assert(forall|x: usize| #[trigger] c1.count(x) + l0.count(x) == c0.count(x) + l1.count(x)) by {
            assert forall|x: usize| #[trigger] c1.count(x) + l0.count(x) == c0.count(x) + l1.count(x) by {
                assert(c1.add(l0).count(x) == c0.add(l1).count(x));
            }
        }
        let place = action == Action::Place || (action == Action::ToggleLoad && r.carrying is Some);
        let pick = action == Action::Pick || (action == Action::ToggleLoad && r.carrying is None);
        if pick {
            let k = first_where(w.shelves, shelf_is_at(r.pos))->Some_0;
            assert(is_first_where(w.shelves, shelf_is_at(r.pos), k));
            let sid = w.shelves[k].id;
            let ids = w.shelves.map_values(|s: Shelf| s.id);
            assert(v.shelves.map_values(|s: Shelf| s.id) =~= ids.remove(k));
            assert(ids[k] == sid);
            assert(s1 == s0.remove(sid));
            assert(s0.count(sid) > 0) by {
                assert(ids.contains(ids[k]));
            }
            assert(l0 =~= Multiset::empty());
            assert(l1 =~= Multiset::singleton(sid));
            assert(g1 == g0);
        } else if place {
            let c = r.carrying->Some_0;
            assert(l0 =~= Multiset::singleton(c));
            assert(l1 =~= Multiset::empty());
            if first_where(w.goals, goal_matches(c, r.pos)) is Some {
                let g = first_where(w.goals, goal_matches(c, r.pos))->Some_0;
                assert(is_first_where(w.goals, goal_matches(c, r.pos), g));
                let ids = w.goals.map_values(|g: Goal| g.id);
                assert(v.goals.map_values(|g: Goal| g.id) =~= ids.remove(g));
                assert(ids[g] == c);
                assert(g1 == g0.remove(c));
                assert(g0.count(c) > 0) by {
                    assert(ids.contains(ids[g]));
                }
                assert(s1 == s0);
            } else {
                let ids = w.shelves.map_values(|s: Shelf| s.id);
                assert(v.shelves.map_values(|s: Shelf| s.id) =~= ids.push(c));
                assert(s1 == s0.insert(c));
                assert(g1 == g0);
            }
        } else {
            assert(v.robots[i].carrying == r.carrying);
            assert(l0 == l1);
            assert(v.shelves == w.shelves);
            assert(v.goals == w.goals);
        }
        assert forall|x: usize| #[trigger] s1.add(c1).add(g0).count(x) == s0.add(c0).add(g1).count(x) by {
            assert(c1.count(x) + l0.count(x) == c0.count(x) + l1.count(x));
        }
    }
}

/// The movement action that goes the way a robot facing `d` faces.
pub open spec fn move_for(d: Direction) -> Action {
    match d {
        Direction::North => Action::MoveUp,
        Direction::South => Action::MoveDown,
        Direction::East => Action::MoveRight,
        Direction::West => Action::MoveLeft,
    }
}

/// Moving forward is the move in the direction the robot faces: the same
/// outcome (new state or error) and the same precondition.
pub proof fn law_forward_is_move_of_facing(w: WarehouseView, robot_id: usize)
    requires
        robot_index(w.robots, robot_id) is Some,
    ensures
        ({
            let d = w.robots[robot_index(w.robots, robot_id)->Some_0].direction;
            &&& step_spec(w, robot_id, Action::Forward) == step_spec(w, robot_id, move_for(d))
            &&& step_precondition(w, robot_id, Action::Forward) == step_precondition(w, robot_id, move_for(d))
        }),
{
}

/// Toggling the load places the carried shelf when the robot carries one,
/// and picks one up otherwise.
pub proof fn law_toggle_is_place_or_pick(w: WarehouseView, robot_id: usize)
    requires
        robot_index(w.robots, robot_id) is Some,
    ensures
        ({
            let r = w.robots[robot_index(w.robots, robot_id)->Some_0];
            step_spec(w, robot_id, Action::ToggleLoad) == if r.carrying is Some {
                step_spec(w, robot_id, Action::Place)
            } else {
                step_spec(w, robot_id, Action::Pick)
            }
        }),
{
}

/// No two shelves on the floor share a cell.
pub open spec fn shelves_apart(shelves: Seq<Shelf>) -> bool {
    forall|a: int, b: int|
        0 <= a < shelves.len() && 0 <= b < shelves.len() && a != b ==> (#[trigger] shelves[a]).pos
            != (#[trigger] shelves[b]).pos
}

/// A step never stacks two shelves on one cell: a pick takes a shelf away, a
/// drop happens only on a cell without a shelf, and nothing else moves shelves.
pub proof fn law_step_keeps_shelves_apart(w: WarehouseView, robot_id: usize, action: Action)
    requires
        shelves_apart(w.shelves),
    ensures
        shelves_apart(state_after(w, step_spec(w, robot_id, action)).shelves),
{
    if step_spec(w, robot_id, action) is Ok {
        let i = robot_index(w.robots, robot_id)->Some_0;
        assert(is_first_where(w.robots, robot_has_id(robot_id), i));
        let v = step_spec(w, robot_id, action)->Ok_0;
        let r = w.robots[i];
        let place = action == Action::Place || (action == Action::ToggleLoad && r.carrying is Some);
        let pick = action == Action::Pick || (action == Action::ToggleLoad && r.carrying is None);
        if pick {
            let k = first_where(w.shelves, shelf_is_at(r.pos))->Some_0;
            assert(is_first_where(w.shelves, shelf_is_at(r.pos), k));
            assert(v.shelves == w.shelves.remove(k));
            assert forall|a: int, b: int|
                0 <= a < v.shelves.len() && 0 <= b < v.shelves.len() && a != b implies (
                #[trigger] v.shelves[a]).pos != (#[trigger] v.shelves[b]).pos by {
                let a0 = if a < k { a } else { a + 1 };
                let b0 = if b < k { b } else { b + 1 };
                assert(v.shelves[a] == w.shelves[a0]);
                assert(v.shelves[b] == w.shelves[b0]);
            }
        } else if place {
            let c = r.carrying->Some_0;
            if first_where(w.goals, goal_matches(c, r.pos)) is None {
                assert(!has_shelf_at(w.shelves, r.pos));
                assert(v.shelves == w.shelves.push(Shelf { id: c, pos: r.pos }));
                assert forall|a: int, b: int|
                    0 <= a < v.shelves.len() && 0 <= b < v.shelves.len() && a != b implies (
                    #[trigger] v.shelves[a]).pos != (#[trigger] v.shelves[b]).pos by {
                    if a == w.shelves.len() {
                        assert(v.shelves[b] == w.shelves[b]);
                    } else if b == w.shelves.len() {
                        assert(v.shelves[a] == w.shelves[a]);
                    } else {
                        assert(v.shelves[a] == w.shelves[a]);
                        assert(v.shelves[b] == w.shelves[b]);
                    }
                }
            }
        }
    }
}

/// A robot that carries a shelf never moves onto a cell where any shelf of
/// the floor stands, whatever its place in the list: the move is refused and
/// the warehouse stays as it was.
pub proof fn law_loaded_robot_cannot_enter_shelf_cell(
    w: WarehouseView,
    robot_id: usize,
    action: Action,
    k: int,
)
    requires
        robot_index(w.robots, robot_id) is Some,
        w.robots[robot_index(w.robots, robot_id)->Some_0].carrying is Some,
        move_delta(action, w.robots[robot_index(w.robots, robot_id)->Some_0].direction) is Some,
        0 <= k < w.shelves.len(),
        w.shelves[k].pos == displaced(
            w.robots[robot_index(w.robots, robot_id)->Some_0].pos,
            move_delta(action, w.robots[robot_index(w.robots, robot_id)->Some_0].direction)->Some_0,
        ),
    ensures
        step_spec(w, robot_id, action) is Err,
        state_after(w, step_spec(w, robot_id, action)) == w,
{
    let i = robot_index(w.robots, robot_id)->Some_0;
    let r = w.robots[i];
    let p = displaced(r.pos, move_delta(action, r.direction)->Some_0);
    assert(w.shelves[k].pos == p);
    assert(has_shelf_at(w.shelves, p));
}

/// A move onto a cell of the grid where no robot of another id stands, and,
/// for a robot carrying a shelf, where no shelf stands, succeeds: the robot
/// is then on that cell and nothing else changes.
pub proof fn law_free_move_succeeds(w: WarehouseView, robot_id: usize, action: Action)
    requires
        robot_index(w.robots, robot_id) is Some,
        move_delta(action, w.robots[robot_index(w.robots, robot_id)->Some_0].direction) is Some,
        ({
            let i = robot_index(w.robots, robot_id)->Some_0;
            let r = w.robots[i];
            let p = displaced(r.pos, move_delta(action, r.direction)->Some_0);
            &&& 0 <= p.x < w.width
            &&& 0 <= p.y < w.height
            &&& forall|j: int| 0 <= j < w.robots.len() && (#[trigger] w.robots[j]).pos == p ==> w.robots[j].id == robot_id
            &&& r.carrying is Some ==> forall|k: int| 0 <= k < w.shelves.len() ==> (#[trigger] w.shelves[k]).pos != p
        }),
    ensures
        ({
            let i = robot_index(w.robots, robot_id)->Some_0;
            let r = w.robots[i];
            let p = displaced(r.pos, move_delta(action, r.direction)->Some_0);
            step_spec(w, robot_id, action) == Ok::<WarehouseView, Seq<char>>(
                WarehouseView { robots: w.robots.update(i, Robot { pos: p, ..r }), ..w },
            )
        }),
{
    let i = robot_index(w.robots, robot_id)->Some_0;
    assert(is_first_where(w.robots, robot_has_id(robot_id), i));
}

} // verus!
