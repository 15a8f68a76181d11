//! A STARK-style algebraic constraint system (AIR) for the Fibonacci
//! recurrence over the prime field with modulus 2^64 - 2^32 + 1.
//!
//! The crate builds the execution trace of the recurrence, extracts the
//! public input (the claimed final term), assembles the boundary and
//! transition constraints as algebraic expression trees, and proves that
//! those constraints vanish on their target rows exactly when the trace
//! is a valid Fibonacci sequence ending at the claimed value.

pub mod field;
pub mod domain;
pub mod trace;
pub mod expr;
pub mod air;
pub mod prover;

pub use field::P;
