//! Algebraic expression trees over an indeterminate X and trace-cell
//! references, the language in which the AIR's constraints are written.
//!
//! An expression is evaluated at a domain row: X takes the row's domain
//! point, and a trace reference `Trace(column, offset)` reads the trace
//! cell `offset` rows away from the current one, wrapping around the
//! domain cyclically.

use vstd::prelude::*;
use crate::field::{
    P, fadd, fsub, fmul, fpow, finv, is_elem, fp_add, fp_sub, fp_mul, fp_pow, fp_inv,
};
use vstd::arithmetic::div_mod::lemma_small_mod;
use vstd::arithmetic::div_mod::lemma_mod_add_multiples_vanish;
use vstd::arithmetic::div_mod::lemma_mod_sub_multiples_vanish;

verus! {

/// An algebraic expression: a constant field element, the indeterminate
/// X, a trace-cell reference (column, relative row offset), or one of
/// the closed set of operations over subexpressions. Division is by a
/// nonzero polynomial factor; at a point it multiplies by the field
/// inverse of the denominator's value.
pub enum Expr {
    Constant(u64),
    X,
    Trace(usize, isize),
    Add(Box<Expr>, Box<Expr>),
    Sub(Box<Expr>, Box<Expr>),
    Mul(Box<Expr>, Box<Expr>),
    Pow(Box<Expr>, u64),
    Div(Box<Expr>, Box<Expr>),
}

/// Well-formedness of an expression against a trace of n rows: constants
/// are canonical field elements, only the single base column is
/// referenced, and row offsets stay within one wrap of the domain.
pub open spec fn wf_expr(e: Expr, n: nat) -> bool
    decreases e,
{
    match e {
        Expr::Constant(c) => is_elem(c as int),
        Expr::X => true,
        Expr::Trace(col, off) => col == 0 && -(n as int) < (off as int) && (off as int) < n as int,
        Expr::Add(a, b) => wf_expr(*a, n) && wf_expr(*b, n),
        Expr::Sub(a, b) => wf_expr(*a, n) && wf_expr(*b, n),
        Expr::Mul(a, b) => wf_expr(*a, n) && wf_expr(*b, n),
        Expr::Pow(a, _) => wf_expr(*a, n),
        Expr::Div(a, b) => wf_expr(*a, n) && wf_expr(*b, n),
    }
}

/// The value of an expression over trace t at row `row`, with the
/// indeterminate X bound to `x`. Out-of-column trace references read as
/// zero; row offsets wrap around the domain.
pub open spec fn eval_expr(e: Expr, t: Seq<u64>, row: int, x: int) -> int
    decreases e,
{
    match e {
        Expr::Constant(c) => c as int,
        Expr::X => x,
        Expr::Trace(col, off) => if col == 0 {
            t[(row + off as int) % (t.len() as int)] as int
        } else {
            0
        },
        Expr::Add(a, b) => fadd(eval_expr(*a, t, row, x), eval_expr(*b, t, row, x)),
        Expr::Sub(a, b) => fsub(eval_expr(*a, t, row, x), eval_expr(*b, t, row, x)),
        Expr::Mul(a, b) => fmul(eval_expr(*a, t, row, x), eval_expr(*b, t, row, x)),
        Expr::Pow(a, k) => fpow(eval_expr(*a, t, row, x), k as nat),
        Expr::Div(a, b) => fmul(eval_expr(*a, t, row, x), finv(eval_expr(*b, t, row, x))),
    }
}

impl Expr {
    /// Evaluates the expression over the given trace column at the given
    /// row, with X bound to `x`.
    pub fn eval(&self, trace: &Vec<u64>, row: usize, x: u64) -> (r: u64)
        requires
            trace@.len() >= 1,
            row < trace@.len(),
            wf_expr(*self, trace@.len() as nat),
            forall|i: int| 0 <= i < trace@.len() ==> is_elem(#[trigger] trace@[i] as int),
            is_elem(x as int),
        ensures
            r == eval_expr(*self, trace@, row as int, x as int),
            is_elem(r as int),
        decreases self,
    {
        let n: usize = trace.len();
        match self {
            Expr::Constant(c) => *c,
            Expr::X => x,
            Expr::Trace(col, off) => {
                let o: isize = *off;
                let idx: usize = if o >= 0 {
                    let oo: usize = o as usize;
                    if row < n - oo {
                        proof {
                            lemma_small_mod((row + oo) as nat, n as nat);
                        }
                        row + oo
                    } else {
                        proof {
                            lemma_mod_sub_multiples_vanish(row + oo, n as int);
                            lemma_small_mod((row + oo - n) as nat, n as nat);
                        }
                        row - (n - oo)
                    }
                } else {
                    let oo: usize = (-(o as i128)) as usize;
                    if oo <= row {
                        proof {
                            lemma_small_mod((row - oo) as nat, n as nat);
                        }
                        row - oo
                    } else {
                        proof {
                            lemma_mod_add_multiples_vanish(row - oo as int, n as int);
                            lemma_small_mod((row - oo + n) as nat, n as nat);
                        }
                        row + (n - oo)
                    }
                };
                trace[idx]
            },
            Expr::Add(a, b) => fp_add(a.eval(trace, row, x), b.eval(trace, row, x)),
            Expr::Sub(a, b) => fp_sub(a.eval(trace, row, x), b.eval(trace, row, x)),
            Expr::Mul(a, b) => fp_mul(a.eval(trace, row, x), b.eval(trace, row, x)),
            Expr::Pow(a, k) => fp_pow(a.eval(trace, row, x), *k),
            Expr::Div(a, b) => fp_mul(a.eval(trace, row, x), fp_inv(b.eval(trace, row, x))),
        }
    }
}

} // verus!
