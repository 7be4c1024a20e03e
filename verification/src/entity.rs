//! The robots, shelves and goals of a warehouse, and the warehouse itself.

use vstd::prelude::*;

use crate::grid::Position;
use crate::types::Direction;

verus! {

/// A robot in the warehouse.
#[derive(Debug, Clone, Copy, PartialEq, Eq, Structural)]
pub struct Robot {
    pub id: usize,
    pub pos: Position,
    /// The direction the robot is facing.
    pub direction: Direction,
    /// The id of the shelf the robot is currently carrying, if any.
    pub carrying: Option<usize>,
}

/// A shelf that robots can carry.
#[derive(Debug, Clone, Copy, PartialEq, Eq, Structural)]
pub struct Shelf {
    pub id: usize,
    pub pos: Position,
}

/// A goal location where the shelf with the same id should be placed.
#[derive(Debug, Clone, Copy, PartialEq, Eq, Structural)]
pub struct Goal {
    pub id: usize,
    pub pos: Position,
}

/// The state of a warehouse.
#[derive(Debug, Clone)]
pub struct Warehouse {
    pub width: usize,
    pub height: usize,
    pub robots: Vec<Robot>,
    pub shelves: Vec<Shelf>,
    pub goals: Vec<Goal>,
    /// The global clock: the number of completed simulation steps.
    pub clock: u64,
}

/// The mathematical state of a warehouse.
pub ghost struct WarehouseView {
    pub width: usize,
    pub height: usize,
    pub robots: Seq<Robot>,
    pub shelves: Seq<Shelf>,
    pub goals: Seq<Goal>,
    pub clock: u64,
}

impl View for Warehouse {
    type V = WarehouseView;

    open spec fn view(&self) -> WarehouseView {
        WarehouseView {
            width: self.width,
            height: self.height,
            robots: self.robots@,
            shelves: self.shelves@,
            goals: self.goals@,
            clock: self.clock,
        }
    }
}

impl Warehouse {
    /// Create a new empty warehouse with the given dimensions, its clock at 0.
    pub fn new(width: usize, height: usize) -> (w: Self)
        ensures
            w@ == (WarehouseView {
                width,
                height,
                robots: Seq::empty(),
                shelves: Seq::empty(),
                goals: Seq::empty(),
                clock: 0,
            }),
    {
        Warehouse {
            width,
            height,
            robots: Vec::new(),
            shelves: Vec::new(),
            goals: Vec::new(),
            clock: 0,
        }
    }

    /// Add a robot to the warehouse.
    pub fn add_robot(&mut self, robot: Robot)
        ensures
            final(self)@ == (WarehouseView { robots: old(self)@.robots.push(robot), ..old(self)@ }),
    {
        self.robots.push(robot);
    }

    /// Add a shelf to the warehouse.
    pub fn add_shelf(&mut self, shelf: Shelf)
        ensures
            final(self)@ == (WarehouseView { shelves: old(self)@.shelves.push(shelf), ..old(self)@ }),
    {
        self.shelves.push(shelf);
    }

    /// Add a goal to the warehouse.
    pub fn add_goal(&mut self, goal: Goal)
        ensures
            final(self)@ == (WarehouseView { goals: old(self)@.goals.push(goal), ..old(self)@ }),
    {
        self.goals.push(goal);
    }

    /// The current time of the global clock.
    pub fn current_time(&self) -> (t: u64)
        ensures
            t == self.clock,
    {
        self.clock
    }

    /// Advance the global clock by one step.
    pub fn tick(&mut self)
        requires
            old(self).clock < u64::MAX,
        ensures
            final(self)@ == (WarehouseView { clock: (old(self).clock + 1) as u64, ..old(self)@ }),
    {
        self.clock = self.clock + 1;
    }

    /// Set the global clock back to 0.
    pub fn reset_clock(&mut self)
        ensures
            final(self)@ == (WarehouseView { clock: 0, ..old(self)@ }),
    {
        self.clock = 0;
    }
}

} // verus!
