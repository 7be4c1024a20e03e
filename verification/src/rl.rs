//! The learning environment around the simulation, and the experience
//! replay buffer of the learning agent.

pub mod env;
pub mod replay;
pub mod model;
