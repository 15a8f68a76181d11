//! Proof orchestration: binds proof parameters to a trace and derives
//! the public input handed to the constraint system. The heavy
//! polynomial work (low-degree extension, commitment, FRI) is the
//! external proving engine's, which consumes the trace, the assembled
//! constraints and the public input.

use vstd::prelude::*;
use crate::air::ProofOptions;
use crate::trace::FibTrace;

verus! {

/// The prover's side of the orchestration: holds the proof parameters
/// that fix the target security level.
pub struct FibProver {
    pub options: ProofOptions,
}

impl FibProver {
    /// A prover with the given parameters.
    pub fn new(options: ProofOptions) -> (r: FibProver)
        ensures
            r.options == options,
    {
        FibProver { options }
    }

    /// The public input bound into the proof: the trace's last row,
    /// the claimed nth Fibonacci number.
    pub fn get_pub_inputs(&self, trace: &FibTrace) -> (r: u64)
        requires
            trace@.len() >= 1,
        ensures
            r == trace@[trace@.len() - 1],
    {
        trace.last_fib_number()
    }

    /// The proof parameters this prover was built with.
    pub fn options(&self) -> (r: ProofOptions)
        ensures
            r == self.options,
    {
        self.options
    }
}

} // verus!
