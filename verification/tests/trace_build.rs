use fib_stark::trace::{build_fib_matrix, FibTrace};
use fib_stark::prover::FibProver;
use fib_stark::air::ProofOptions;
use fib_stark::field::P;

#[test]
fn trace_for_two_rows() {
    let column = build_fib_matrix(2);
    assert_eq!(column, vec![1, 1]);
}

#[test]
fn trace_for_four_rows() {
    let column = build_fib_matrix(4);
    assert_eq!(column, vec![1, 1, 2, 3]);
}

#[test]
fn trace_for_eight_rows() {
    let column = build_fib_matrix(8);
    assert_eq!(column, vec![1, 1, 2, 3, 5, 8, 13, 21]);
}

#[test]
fn trace_satisfies_recurrence_in_the_field() {
    // the full 2^16-row trace behind the headline claim
    let n = 1usize << 16;
    let column = build_fib_matrix(n);
    assert_eq!(column.len(), n);
    assert_eq!(column[0], 1);
    assert_eq!(column[1], 1);
    for i in 2..n {
        let expected = ((column[i - 1] as u128 + column[i - 2] as u128) % (P as u128)) as u64;
        assert_eq!(column[i], expected);
    }
    // the 2^16th Fibonacci number, reduced mod p
    assert_eq!(column[n - 1], 942242361288758570);
}

#[test]
fn trace_values_wrap_modulo_p() {
    // by row 128 the integers exceed 2^64, so the field wraps them
    let column = build_fib_matrix(128);
    for i in 2..128 {
        assert!(column[i] < P);
        let expected = ((column[i - 1] as u128 + column[i - 2] as u128) % (P as u128)) as u64;
        assert_eq!(column[i], expected);
    }
}

#[test]
fn last_fib_number_is_last_row() {
    let trace = FibTrace::new(build_fib_matrix(4));
    assert_eq!(trace.last_fib_number(), 3);
    let trace2 = FibTrace::new(build_fib_matrix(2));
    assert_eq!(trace2.last_fib_number(), 1);
}

#[test]
fn base_columns_returns_the_column() {
    let trace = FibTrace::new(build_fib_matrix(8));
    assert_eq!(trace.base_columns(), &vec![1, 1, 2, 3, 5, 8, 13, 21]);
}

#[test]
fn prover_extracts_public_input_from_trace() {
    let options = ProofOptions::new(30, 16, 16, 8, 64);
    let prover = FibProver::new(options);
    assert_eq!(prover.options(), options);
    let trace = FibTrace::new(build_fib_matrix(4));
    assert_eq!(prover.get_pub_inputs(&trace), 3);
}
