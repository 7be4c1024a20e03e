//! A grid-based robotic warehouse: robots, shelves and goals on a discrete
//! board, the rules by which robots move, turn, pick up and place shelves,
//! agents that decide what a robot does next, and the environment and replay
//! buffer of a learning agent.

pub mod grid;
pub mod types;
pub mod action;
pub mod entity;
pub mod simulation;
pub mod clock_sim;
pub mod laws;
mod rng;
pub mod bots;
pub mod rl;

pub use crate::action::Action;
pub use crate::bots::{Agent, GreedyAgent, RandomAgent};
pub use crate::clock_sim::{step_single_with_clock, step_with_clock};
pub use crate::entity::{Goal, Robot, Shelf, Warehouse};
pub use crate::grid::Position;
pub use crate::simulation::step;
pub use crate::types::Direction;
pub mod ascii;
