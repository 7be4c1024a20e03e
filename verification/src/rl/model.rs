//! The shape of the Q-network.

use vstd::prelude::*;

verus! {

/// The layer sizes of the Q-network: input, hidden and output widths.
#[derive(Debug, Clone, Copy, PartialEq, Eq, Structural)]
pub struct DqnModelConfig {
    pub input_size: usize,
    pub hidden_size: usize,
    pub output_size: usize,
}

} // verus!
