//! The execution trace of the Fibonacci recurrence.
//!
//! A trace is a single column of field elements, one per row of the
//! evaluation domain: row 0 and row 1 hold the field's one, and every
//! later row holds the field sum of the two rows before it.

use vstd::prelude::*;
use crate::field::{P, fp_add, fadd, is_elem};
use crate::domain::is_pow2;

verus! {

/// A sequence is a valid Fibonacci trace when it has at least two rows,
/// every row is a canonical field element, the first two rows are one,
/// and each later row is the field sum of the two rows before it.
pub open spec fn valid_trace(s: Seq<u64>) -> bool {
    &&& s.len() >= 2
    &&& (forall|i: int| 0 <= i < s.len() ==> is_elem(#[trigger] s[i] as int))
    &&& s[0] == 1
    &&& s[1] == 1
    &&& forall|i: int| 2 <= i < s.len() ==> #[trigger] s[i] == fadd(s[i - 1] as int, s[i - 2] as int)
}

/// Fills the trace matrix's single column with the Fibonacci numbers,
/// computed in the field.
pub fn build_fib_matrix(n: usize) -> (r: Vec<u64>)
    requires
        n >= 2,
        is_pow2(n as nat),
    ensures
        r@.len() == n,
        valid_trace(r@),
{
    let mut column: Vec<u64> = Vec::new();

    // initial fibonacci numbers
    column.push(1);
    column.push(1);

    let mut i: usize = 2;
    while i < n
        invariant
            2 <= i <= n,
            column@.len() == i,
            valid_trace(column@),
        decreases n - i,
    {
        let next: u64 = fp_add(column[i - 1], column[i - 2]);
        column.push(next);
        i = i + 1;
    }
    column
}

/// The prover's private execution trace: one column of field elements.
pub struct FibTrace {
    pub column: Vec<u64>,
}

impl View for FibTrace {
    type V = Seq<u64>;

    open spec fn view(&self) -> Seq<u64> {
        self.column@
    }
}

impl FibTrace {
    /// Wraps a trace column.
    pub fn new(column: Vec<u64>) -> (r: FibTrace)
        ensures
            r@ == column@,
    {
        FibTrace { column }
    }

    /// The single base column of the trace matrix.
    pub fn base_columns(&self) -> (r: &Vec<u64>)
        ensures
            r@ == self@,
    {
        &self.column
    }

    /// The last row of the trace: the claimed nth Fibonacci number,
    /// shipped to the verifier as the public input.
    pub fn last_fib_number(&self) -> (r: u64)
        requires
            self@.len() >= 1,
        ensures
            r == self@[self@.len() - 1],
    {
        let n: usize = self.column.len();
        self.column[n - 1]
    }
}

} // verus!
