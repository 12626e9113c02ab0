//! Capacity limits supplied by the surrounding proof framework.
//!
//! A gate instance is sized against the number of wire columns a row offers
//! and how many of them are routed (eligible for copy constraints).  Only
//! these two counts enter the gates' capacity checks.

use vstd::prelude::*;

verus! {

/// The per-row capacity limits of a circuit configuration.
#[derive(Clone, Copy, Debug, PartialEq, Eq, Structural)]
pub struct CircuitConfig {
    /// Total number of wire columns in a row.
    pub num_wires: usize,
    /// Number of routed wire columns, at most `num_wires`.
    pub num_routed_wires: usize,
}

impl CircuitConfig {
    /// The capacity checks reserve three wires, so a configuration must offer
    /// at least that many.
    pub open spec fn wf(self) -> bool {
        3 <= self.num_routed_wires <= self.num_wires
    }

    /// The wire counts of the standard recursion configuration of plonky2.
    pub fn standard_recursion_config() -> (r: CircuitConfig)
        ensures
            r.num_wires == 135,
            r.num_routed_wires == 80,
            r.wf(),
    {
        CircuitConfig { num_wires: 135, num_routed_wires: 80 }
    }
}

} // verus!
