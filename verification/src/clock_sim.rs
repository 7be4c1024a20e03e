//! Simulation steps that advance the global clock.

use vstd::prelude::*;

use crate::action::Action;
use crate::entity::{Warehouse, WarehouseView};
use crate::laws::{
    law_step_keeps_robots_apart, law_step_keeps_robots_on_grid, law_step_keeps_shelves_apart, robots_apart,
    robots_on_grid, shelves_apart,
};
use crate::simulation::{result_reports, state_after, step, step_precondition, step_spec};

verus! {

/// The state after the first `n` of the given actions, applied one after the
/// other (a refused action leaves the state as it was).
pub open spec fn run_state(w: WarehouseView, actions: Seq<(usize, Action)>, n: nat) -> WarehouseView
    decreases n,
{
    if n == 0 {
        w
    } else {
        let prev = run_state(w, actions, (n - 1) as nat);
        state_after(prev, step_spec(prev, actions[n - 1].0, actions[n - 1].1))
    }
}

/// Each of the first `n` actions is defined in the state it is applied to.
pub open spec fn run_defined(w: WarehouseView, actions: Seq<(usize, Action)>, n: nat) -> bool
    decreases n,
{
    n == 0 || (run_defined(w, actions, (n - 1) as nat) && step_precondition(
        run_state(w, actions, (n - 1) as nat),
        actions[n - 1].0,
        actions[n - 1].1,
    ))
}

/// A run defined for `n` actions is defined for each shorter prefix.
pub proof fn lemma_run_defined_prefix(w: WarehouseView, actions: Seq<(usize, Action)>, n: nat, k: nat)
    requires
        run_defined(w, actions, n),
        k <= n,
    ensures
        run_defined(w, actions, k),
    decreases n,
{
    if k < n {
        lemma_run_defined_prefix(w, actions, (n - 1) as nat, k);
    }
}

/// A step never touches the clock or the grid's dimensions.
pub proof fn lemma_step_keeps_clock(w: WarehouseView, robot_id: usize, action: Action)
    ensures
        state_after(w, step_spec(w, robot_id, action)).clock == w.clock,
        state_after(w, step_spec(w, robot_id, action)).width == w.width,
        state_after(w, step_spec(w, robot_id, action)).height == w.height,
{
}

/// A run of steps never touches the clock or the grid's dimensions.
pub proof fn lemma_run_keeps_clock(w: WarehouseView, actions: Seq<(usize, Action)>, n: nat)
    ensures
        run_state(w, actions, n).clock == w.clock,
        run_state(w, actions, n).width == w.width,
        run_state(w, actions, n).height == w.height,
    decreases n,
{
    if n > 0 {
        lemma_run_keeps_clock(w, actions, (n - 1) as nat);
    }
}

/// Over any run of steps, robots stay on the grid and robots with different
/// ids never share a cell.
pub proof fn law_run_keeps_robots_on_grid_and_apart(w: WarehouseView, actions: Seq<(usize, Action)>, n: nat)
    requires
        robots_on_grid(w),
        robots_apart(w.robots),
    ensures
        robots_on_grid(run_state(w, actions, n)),
        robots_apart(run_state(w, actions, n).robots),
    decreases n,
{
    if n > 0 {
        let prev = run_state(w, actions, (n - 1) as nat);
        law_run_keeps_robots_on_grid_and_apart(w, actions, (n - 1) as nat);
        law_step_keeps_robots_on_grid(prev, actions[n - 1].0, actions[n - 1].1);
        law_step_keeps_robots_apart(prev, actions[n - 1].0, actions[n - 1].1);
    }
}

/// Over any run of steps, no two shelves come to share a cell.
pub proof fn law_run_keeps_shelves_apart(w: WarehouseView, actions: Seq<(usize, Action)>, n: nat)
    requires
        shelves_apart(w.shelves),
    ensures
        shelves_apart(run_state(w, actions, n).shelves),
    decreases n,
{
    if n > 0 {
        let prev = run_state(w, actions, (n - 1) as nat);
        law_run_keeps_shelves_apart(w, actions, (n - 1) as nat);
        law_step_keeps_shelves_apart(prev, actions[n - 1].0, actions[n - 1].1);
    }
}

/// Execute the given `(robot_id, action)` pairs one after the other, then
/// advance the clock once. The results are in the order of the actions.
pub fn step_with_clock(warehouse: &mut Warehouse, actions: Vec<(usize, Action)>) -> (results: Vec<
    Result<(), String>,
>)
    requires
        run_defined(old(warehouse)@, actions@, actions@.len()),
        old(warehouse).clock < u64::MAX,
    ensures
        results@.len() == actions@.len(),
        forall|k: int|
            0 <= k < actions@.len() ==> result_reports(
                #[trigger] results@[k],
                step_spec(run_state(old(warehouse)@, actions@, k as nat), actions@[k].0, actions@[k].1),
            ),
        final(warehouse)@ == (WarehouseView {
            clock: (old(warehouse).clock + 1) as u64,
            ..run_state(old(warehouse)@, actions@, actions@.len())
        }),
{
    let mut results: Vec<Result<(), String>> = Vec::new();
    let n = actions.len();
    let mut i: usize = 0;
    while i < n
        invariant
            n == actions@.len(),
            i <= n,
            results@.len() == i,
            run_defined(old(warehouse)@, actions@, n as nat),
            warehouse@ == run_state(old(warehouse)@, actions@, i as nat),
            forall|k: int|
                0 <= k < i ==> result_reports(
                    #[trigger] results@[k],
                    step_spec(run_state(old(warehouse)@, actions@, k as nat), actions@[k].0, actions@[k].1),
                ),
        decreases n - i,
    {
        let (robot_id, action) = actions[i];
        proof {
            lemma_run_defined_prefix(old(warehouse)@, actions@, n as nat, (i + 1) as nat);
        }
        let result = step(warehouse, robot_id, action);
        results.push(result);
        i = i + 1;
    }
    proof {
        lemma_run_keeps_clock(old(warehouse)@, actions@, n as nat);
    }
    warehouse.tick();
    results
}

/// Execute a single action and advance the clock.
pub fn step_single_with_clock(warehouse: &mut Warehouse, robot_id: usize, action: Action) -> (r: Result<(), String>)
    requires
        step_precondition(old(warehouse)@, robot_id, action),
        old(warehouse).clock < u64::MAX,
    ensures
        result_reports(r, step_spec(old(warehouse)@, robot_id, action)),
        final(warehouse)@ == (WarehouseView {
            clock: (old(warehouse).clock + 1) as u64,
            ..state_after(old(warehouse)@, step_spec(old(warehouse)@, robot_id, action))
        }),
{
    let result = step(warehouse, robot_id, action);
    proof {
        lemma_step_keeps_clock(old(warehouse)@, robot_id, action);
    }
    warehouse.tick();
    result
}

} // verus!
