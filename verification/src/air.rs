//! The algebraic constraint system (AIR) for the Fibonacci trace.
//!
//! Four constraints bind a trace of length n to the claimed public
//! input: the first two rows equal one, every later row equals the
//! field sum of the two rows before it, and the last row equals the
//! claim. Each raw difference is divided by the polynomial vanishing
//! exactly on the rows where the condition applies, so the quotient is
//! low-degree exactly when the condition holds there.

use vstd::prelude::*;
use crate::field::{P, fadd, is_elem, lemma_fsub_zero_iff_eq};
use crate::domain::{Domain, domain_element, is_pow2, TWO_ADIC_ORDER};
use crate::expr::{Expr, eval_expr, wf_expr};
use crate::trace::{FibTrace, valid_trace};
use vstd::arithmetic::div_mod::lemma_small_mod;
use vstd::arithmetic::div_mod::lemma_mod_bound;

verus! {

/// The security-parameter bundle handed opaquely to the proving engine.
#[derive(Clone, Copy, PartialEq, Eq, Structural, Debug)]
pub struct ProofOptions {
    pub num_queries: u32,
    pub lde_blowup_factor: u32,
    pub grinding_factor: u32,
    pub fri_folding_factor: u32,
    pub fri_max_remainder_size: u32,
}

impl ProofOptions {
    /// Bundles the proof parameters.
    pub fn new(
        num_queries: u32,
        lde_blowup_factor: u32,
        grinding_factor: u32,
        fri_folding_factor: u32,
        fri_max_remainder_size: u32,
    ) -> (r: ProofOptions)
        ensures
            r.num_queries == num_queries,
            r.lde_blowup_factor == lde_blowup_factor,
            r.grinding_factor == grinding_factor,
            r.fri_folding_factor == fri_folding_factor,
            r.fri_max_remainder_size == fri_max_remainder_size,
    {
        ProofOptions {
            num_queries,
            lde_blowup_factor,
            grinding_factor,
            fri_folding_factor,
            fri_max_remainder_size,
        }
    }
}

/// The shape of the execution trace: its row count and its single base
/// column.
#[derive(Clone, Copy, PartialEq, Eq, Structural, Debug)]
pub struct TraceInfo {
    pub num_base_columns: usize,
    pub trace_len: usize,
}

impl TraceInfo {
    /// Describes a trace matrix.
    pub fn new(num_base_columns: usize, trace_len: usize) -> (r: TraceInfo)
        ensures
            r.num_base_columns == num_base_columns,
            r.trace_len == trace_len,
    {
        TraceInfo { num_base_columns, trace_len }
    }
}

/// `e` is the linear factor X - w, vanishing exactly at the domain
/// point w.
pub open spec fn is_x_minus(e: Expr, w: int) -> bool {
    &&& e matches Expr::Sub(a, b)
    &&& *a == Expr::X
    &&& *b matches Expr::Constant(c)
    &&& c as int == w
}

/// `e` is the raw boundary difference: current row minus the constant v.
pub open spec fn is_curr_minus(e: Expr, v: int) -> bool {
    &&& e matches Expr::Sub(a, b)
    &&& *a == Expr::Trace(0, 0)
    &&& *b matches Expr::Constant(c)
    &&& c as int == v
}

/// `e` is the raw transition difference: current row minus the sum of
/// the previous two rows.
pub open spec fn is_fib_step(e: Expr) -> bool {
    &&& e matches Expr::Sub(a, b)
    &&& *a == Expr::Trace(0, 0)
    &&& *b matches Expr::Add(p1, p2)
    &&& *p1 == Expr::Trace(0, -1isize)
    &&& *p2 == Expr::Trace(0, -2isize)
}

/// `e` is the full-domain vanishing polynomial X^n - 1.
pub open spec fn is_vanish_all(e: Expr, n: nat) -> bool {
    &&& e matches Expr::Sub(a, b)
    &&& *a matches Expr::Pow(base, k)
    &&& *base == Expr::X
    &&& k as nat == n
    &&& *b matches Expr::Constant(c)
    &&& c == 1
}

/// `e` is a boundary constraint: (current row - v) / (X - w), checking
/// the condition "row value equals v" exactly at the domain point w.
pub open spec fn is_boundary_constraint(e: Expr, w: int, v: int) -> bool {
    &&& e matches Expr::Div(num, den)
    &&& is_curr_minus(*num, v)
    &&& is_x_minus(*den, w)
}

/// `e` is the transition constraint: the raw Fibonacci difference,
/// multiplied by the linear factors of the three excluded rows (first,
/// second, last), divided by the full-domain vanishing polynomial - so
/// the condition is checked on rows 2..n-1 only.
pub open spec fn is_transition_constraint(e: Expr, n: nat, w0: int, w1: int, wl: int) -> bool {
    &&& e matches Expr::Div(num, den)
    &&& *num matches Expr::Mul(m1, vl)
    &&& *m1 matches Expr::Mul(m2, v1)
    &&& *m2 matches Expr::Mul(raw, v0)
    &&& is_fib_step(*raw)
    &&& is_x_minus(*v0, w0)
    &&& is_x_minus(*v1, w1)
    &&& is_x_minus(*vl, wl)
    &&& is_vanish_all(*den, n)
}

/// The numerator of a constraint: what must vanish on the target rows.
pub open spec fn num_of(e: Expr) -> Expr {
    match e {
        Expr::Div(num, _) => *num,
        _ => e,
    }
}

/// The raw difference inside a transition constraint's numerator: the
/// innermost left factor under the excluded-row multipliers.
pub open spec fn raw_of(e: Expr) -> Expr {
    match num_of(e) {
        Expr::Mul(m1, _) => match *m1 {
            Expr::Mul(m2, _) => match *m2 {
                Expr::Mul(raw, _) => *raw,
                _ => *m2,
            },
            _ => *m1,
        },
        other => other,
    }
}

/// The AIR: the trace shape, the claimed public input, and the proof
/// parameters.
pub struct FibAir {
    pub info: TraceInfo,
    pub input: u64,
    pub options: ProofOptions,
}

impl FibAir {
    /// The trace length is a power of two within the field's two-adic
    /// subgroup, the claim is a canonical field element, and the trace
    /// has the single Fibonacci column.
    pub open spec fn wf(self) -> bool {
        &&& 2 <= self.info.trace_len
        &&& self.info.trace_len as nat <= TWO_ADIC_ORDER as nat
        &&& is_pow2(self.info.trace_len as nat)
        &&& is_elem(self.input as int)
        &&& self.info.num_base_columns == 1
    }

    /// Binds trace shape, public input and proof parameters.
    pub fn new(info: TraceInfo, input: u64, options: ProofOptions) -> (r: FibAir)
        ensures
            r.info == info,
            r.input == input,
            r.options == options,
    {
        FibAir { info, input, options }
    }

    /// The claimed nth Fibonacci number, sent to the verifier in the
    /// clear.
    pub fn pub_inputs(&self) -> (r: u64)
        ensures
            r == self.input,
    {
        self.input
    }

    /// The shape of the trace this AIR constrains.
    pub fn trace_info(&self) -> (r: TraceInfo)
        ensures
            r == self.info,
    {
        self.info
    }

    /// The proof parameters.
    pub fn options(&self) -> (r: ProofOptions)
        ensures
            r == self.options,
    {
        self.options
    }

    /// Decides whether a trace satisfies this AIR: every cell is a
    /// canonical field element, the boundary numerators vanish at rows
    /// 0, 1 and n-1, and the transition's raw difference vanishes on
    /// rows 2..n-1. Returns true exactly when the trace is a valid
    /// Fibonacci trace ending at the claimed public input - the
    /// condition under which an honest engine can produce a proof.
    pub fn check_constraints(&self, trace: &FibTrace) -> (b: bool)
        requires
            self.wf(),
            trace@.len() == self.info.trace_len,
        ensures
            b <==> (valid_trace(trace@) && self.input == trace@[trace@.len() - 1]),
    {
        let column = trace.base_columns();
        let n: usize = self.info.trace_len;

        // every cell must be a canonical field element
        let mut i: usize = 0;
        while i < n
            invariant
                column@ == trace@,
                column@.len() == n,
                i <= n,
                forall|j: int| 0 <= j < i ==> is_elem(#[trigger] column@[j] as int),
            decreases n - i,
        {
            if column[i] >= P {
                return false;
            }
            i = i + 1;
        }

        let cs = self.constraints();
        let ghost nn = n as nat;
        let ghost w0 = domain_element(nn, 0);
        let ghost w1 = domain_element(nn, 1);
        let ghost wl = domain_element(nn, (n - 1) as nat);

        // the numerators involve no X, so any point will do
        proof {
            lemma_boundary_num_wf(cs@[0], w0, 1, nn);
            lemma_boundary_num_wf(cs@[1], w1, 1, nn);
            lemma_boundary_num_wf(cs@[3], wl, self.input as int, nn);
        }
        let ok_first: bool = numerator_of(&cs[0]).eval(column, 0, 0) == 0;
        let ok_second: bool = numerator_of(&cs[1]).eval(column, 1, 0) == 0;
        let ok_last: bool = numerator_of(&cs[3]).eval(column, n - 1, 0) == 0;

        let raw = raw_factor_of(&cs[2]);
        let mut ok_transition: bool = true;
        let mut r: usize = 2;
        while r < n
            invariant
                self.wf(),
                column@ == trace@,
                column@.len() == n,
                n == self.info.trace_len,
                2 <= r <= n,
                forall|j: int| 0 <= j < n ==> is_elem(#[trigger] column@[j] as int),
                is_transition_constraint(cs@[2], n as nat, w0, w1, wl),
                *raw == raw_of(cs@[2]),
                ok_transition <==> (forall|j: int|
                    2 <= j < r ==> eval_expr(raw_of(cs@[2]), column@, j, 0) == 0),
            decreases n - r,
        {
            proof {
                lemma_raw_wf(cs@[2], n as nat, w0, w1, wl, n as nat);
            }
            if raw.eval(column, r, 0) != 0 {
                ok_transition = false;
            }
            r = r + 1;
        }

        let b = ok_first && ok_second && ok_transition && ok_last;
        proof {
            if b {
                lemma_air_sound(
                    cs@[0],
                    cs@[1],
                    cs@[2],
                    cs@[3],
                    nn,
                    w0,
                    w1,
                    wl,
                    self.input,
                    trace@,
                    0,
                );
            } else {
                if valid_trace(trace@) && self.input == trace@[trace@.len() - 1] {
                    lemma_air_complete(
                        cs@[0],
                        cs@[1],
                        cs@[2],
                        cs@[3],
                        nn,
                        w0,
                        w1,
                        wl,
                        self.input,
                        trace@,
                        0,
                    );
                    assert(false);
                }
            }
        }
        b
    }

    /// Assembles the four constraints:
    /// 1. the first row must equal 1;
    /// 2. the second row must equal 1;
    /// 3. the remaining rows must equal the sum of their two preceding
    ///    rows;
    /// 4. the last row must equal the prover's claimed nth Fibonacci
    ///    number.
    pub fn constraints(&self) -> (r: Vec<Expr>)
        requires
            self.wf(),
        ensures
            r@.len() == 4,
            is_boundary_constraint(
                r@[0],
                domain_element(self.info.trace_len as nat, 0),
                1,
            ),
            is_boundary_constraint(
                r@[1],
                domain_element(self.info.trace_len as nat, 1),
                1,
            ),
            is_transition_constraint(
                r@[2],
                self.info.trace_len as nat,
                domain_element(self.info.trace_len as nat, 0),
                domain_element(self.info.trace_len as nat, 1),
                domain_element(self.info.trace_len as nat, (self.info.trace_len - 1) as nat),
            ),
            is_boundary_constraint(
                r@[3],
                domain_element(self.info.trace_len as nat, (self.info.trace_len - 1) as nat),
                self.input as int,
            ),
    {
        let n: usize = self.info.trace_len;

        // Domain used to interpolate the execution trace.
        let trace_xs: Domain = Domain::new(n);
        let w_first: u64 = trace_xs.element(0);
        let w_second: u64 = trace_xs.element(1);
        let w_last: u64 = trace_xs.element((n - 1) as u64);

        // 1. first row must equal 1
        let first_must_be_one = Expr::Div(
            Box::new(curr_minus(1)),
            Box::new(x_minus(w_first)),
        );
        // 2. second row must equal 1
        let second_must_be_one = Expr::Div(
            Box::new(curr_minus(1)),
            Box::new(x_minus(w_second)),
        );
        // 3. remaining rows must equal the sum of their two preceding
        //    rows: the raw difference, freed from rows 0, 1 and n-1 by
        //    their linear factors, over the full-domain vanishing
        //    polynomial.
        let transition = Expr::Div(
            Box::new(Expr::Mul(
                Box::new(Expr::Mul(
                    Box::new(Expr::Mul(
                        Box::new(fib_step()),
                        Box::new(x_minus(w_first)),
                    )),
                    Box::new(x_minus(w_second)),
                )),
                Box::new(x_minus(w_last)),
            )),
            Box::new(vanish_all(n as u64)),
        );
        // 4. last row must equal the claimed nth Fibonacci number
        let last_must_be_claim = Expr::Div(
            Box::new(curr_minus(self.input)),
            Box::new(x_minus(w_last)),
        );

        let mut r: Vec<Expr> = Vec::new();
        r.push(first_must_be_one);
        r.push(second_must_be_one);
        r.push(transition);
        r.push(last_must_be_claim);
        r
    }
}

/// The linear factor X - w, vanishing exactly at the domain point w.
pub fn x_minus(w: u64) -> (r: Expr)
    ensures
        is_x_minus(r, w as int),
{
    Expr::Sub(Box::new(Expr::X), Box::new(Expr::Constant(w)))
}

/// The raw boundary difference: current row minus the constant v.
pub fn curr_minus(v: u64) -> (r: Expr)
    ensures
        is_curr_minus(r, v as int),
{
    Expr::Sub(Box::new(Expr::Trace(0, 0)), Box::new(Expr::Constant(v)))
}

/// The raw transition difference: current row minus the sum of the two
/// rows before it.
pub fn fib_step() -> (r: Expr)
    ensures
        is_fib_step(r),
{
    Expr::Sub(
        Box::new(Expr::Trace(0, 0)),
        Box::new(Expr::Add(
            Box::new(Expr::Trace(0, -1isize)),
            Box::new(Expr::Trace(0, -2isize)),
        )),
    )
}

/// The full-domain vanishing polynomial X^n - 1.
pub fn vanish_all(n: u64) -> (r: Expr)
    ensures
        is_vanish_all(r, n as nat),
{
    Expr::Sub(
        Box::new(Expr::Pow(Box::new(Expr::X), n)),
        Box::new(Expr::Constant(1)),
    )
}

/// The numerator of a constraint, as executable extraction.
pub fn numerator_of(e: &Expr) -> (r: &Expr)
    ensures
        *r == num_of(*e),
{
    match e {
        Expr::Div(num, _) => &**num,
        _ => e,
    }
}

/// The raw difference factor of a transition constraint, as executable
/// extraction.
pub fn raw_factor_of(e: &Expr) -> (r: &Expr)
    ensures
        *r == raw_of(*e),
{
    let num = numerator_of(e);
    match num {
        Expr::Mul(m1, _) => match &**m1 {
            Expr::Mul(m2, _) => match &**m2 {
                Expr::Mul(raw, _) => &**raw,
                _ => &**m2,
            },
            _ => &**m1,
        },
        _ => num,
    }
}

/// A boundary constraint's numerator is well-formed against any
/// nonempty trace.
pub proof fn lemma_boundary_num_wf(e: Expr, w: int, v: int, n: nat)
    requires
        is_boundary_constraint(e, w, v),
        is_elem(v),
        n >= 1,
    ensures
        wf_expr(num_of(e), n),
{
    let num = num_of(e);
    assert(wf_expr(*num->Sub_0, n));
    assert(wf_expr(*num->Sub_1, n));
}

/// A transition constraint's raw difference is well-formed against a
/// trace of more than two rows.
pub proof fn lemma_raw_wf(e: Expr, n: nat, w0: int, w1: int, wl: int, m: nat)
    requires
        is_transition_constraint(e, n, w0, w1, wl),
        m >= 3,
    ensures
        wf_expr(raw_of(e), m),
{
    let raw = raw_of(e);
    let prev_sum = *raw->Sub_1;
    assert(wf_expr(*prev_sum->Add_0, m));
    assert(wf_expr(*prev_sum->Add_1, m));
    assert(wf_expr(prev_sum, m));
    assert(wf_expr(*raw->Sub_0, m));
}

/// A boundary constraint's numerator vanishes at a row exactly when
/// that row's value equals the boundary target.
pub proof fn lemma_boundary_eval(e: Expr, w: int, v: int, t: Seq<u64>, r: int, x: int)
    requires
        is_boundary_constraint(e, w, v),
        t.len() >= 1,
        0 <= r < t.len(),
        is_elem(t[r] as int),
        is_elem(v),
    ensures
        eval_expr(num_of(e), t, r, x) == 0 <==> t[r] as int == v,
{
    let num = num_of(e);
    assert(eval_expr(*num->Sub_1, t, r, x) == v);
    lemma_small_mod(r as nat, t.len() as nat);
    assert(eval_expr(*num->Sub_0, t, r, x) == t[r] as int);
    assert(eval_expr(num, t, r, x) == crate::field::fsub(t[r] as int, v));
    lemma_fsub_zero_iff_eq(t[r] as int, v);
}

/// A transition constraint's raw difference vanishes at a row exactly
/// when that row equals the field sum of the two rows before it.
pub proof fn lemma_transition_raw_eval(
    e: Expr,
    n: nat,
    w0: int,
    w1: int,
    wl: int,
    t: Seq<u64>,
    r: int,
    x: int,
)
    requires
        is_transition_constraint(e, n, w0, w1, wl),
        t.len() == n,
        2 <= r < n,
        is_elem(t[r] as int),
        is_elem(t[r - 1] as int),
        is_elem(t[r - 2] as int),
    ensures
        eval_expr(raw_of(e), t, r, x) == 0 <==> t[r] as int == fadd(
            t[r - 1] as int,
            t[r - 2] as int,
        ),
{
    let raw = raw_of(e);
    let prev_sum = *raw->Sub_1;
    lemma_small_mod(r as nat, n);
    lemma_small_mod((r - 1) as nat, n);
    lemma_small_mod((r - 2) as nat, n);
    assert(eval_expr(*prev_sum->Add_0, t, r, x) == t[r - 1] as int);
    assert(eval_expr(*prev_sum->Add_1, t, r, x) == t[r - 2] as int);
    assert(eval_expr(prev_sum, t, r, x) == fadd(t[r - 1] as int, t[r - 2] as int));
    assert(eval_expr(*raw->Sub_0, t, r, x) == t[r] as int);
    assert(eval_expr(raw, t, r, x) == crate::field::fsub(
        t[r] as int,
        fadd(t[r - 1] as int, t[r - 2] as int),
    ));
    lemma_mod_bound(t[r - 1] + t[r - 2], P as int);
    lemma_fsub_zero_iff_eq(t[r] as int, fadd(t[r - 1] as int, t[r - 2] as int));
}

/// When the raw difference vanishes, the whole transition numerator
/// (the raw difference times the excluded rows' linear factors) does.
pub proof fn lemma_transition_num_zero(
    e: Expr,
    n: nat,
    w0: int,
    w1: int,
    wl: int,
    t: Seq<u64>,
    r: int,
    x: int,
)
    requires
        is_transition_constraint(e, n, w0, w1, wl),
        eval_expr(raw_of(e), t, r, x) == 0,
    ensures
        eval_expr(num_of(e), t, r, x) == 0,
{
    lemma_small_mod(0, P as nat);
    let num = num_of(e);
    let m1 = *num->Mul_0;
    let m2 = *m1->Mul_0;
    assert(raw_of(e) == *m2->Mul_0);
    assert(eval_expr(m2, t, r, x) == crate::field::fmul(
        0,
        eval_expr(*m2->Mul_1, t, r, x),
    ));
    assert(eval_expr(m2, t, r, x) == 0);
    assert(eval_expr(m1, t, r, x) == crate::field::fmul(
        0,
        eval_expr(*m1->Mul_1, t, r, x),
    ));
    assert(eval_expr(m1, t, r, x) == 0);
    assert(eval_expr(num, t, r, x) == crate::field::fmul(
        0,
        eval_expr(*num->Mul_1, t, r, x),
    ));
    assert(eval_expr(num, t, r, x) == 0);
}

/// Completeness of the AIR: a trace that satisfies the recurrence and
/// ends at the claimed public input makes every constraint's numerator
/// vanish on all the rows where the constraint applies, whatever value
/// the indeterminate takes.
pub proof fn lemma_air_complete(
    c0: Expr,
    c1: Expr,
    c2: Expr,
    c3: Expr,
    n: nat,
    w0: int,
    w1: int,
    wl: int,
    pi: u64,
    t: Seq<u64>,
    x: int,
)
    requires
        is_boundary_constraint(c0, w0, 1),
        is_boundary_constraint(c1, w1, 1),
        is_transition_constraint(c2, n, w0, w1, wl),
        is_boundary_constraint(c3, wl, pi as int),
        t.len() == n,
        valid_trace(t),
        pi == t[n - 1],
    ensures
        eval_expr(num_of(c0), t, 0, x) == 0,
        eval_expr(num_of(c1), t, 1, x) == 0,
        forall|r: int| 2 <= r < n ==> eval_expr(raw_of(c2), t, r, x) == 0,
        forall|r: int| 2 <= r < n ==> eval_expr(num_of(c2), t, r, x) == 0,
        eval_expr(num_of(c3), t, (n - 1) as int, x) == 0,
{
    lemma_boundary_eval(c0, w0, 1, t, 0, x);
    lemma_boundary_eval(c1, w1, 1, t, 1, x);
    lemma_boundary_eval(c3, wl, pi as int, t, (n - 1) as int, x);
    assert forall|r: int| 2 <= r < n implies eval_expr(raw_of(c2), t, r, x) == 0 by {
        lemma_transition_raw_eval(c2, n, w0, w1, wl, t, r, x);
    }
    assert forall|r: int| 2 <= r < n implies eval_expr(num_of(c2), t, r, x) == 0 by {
        lemma_transition_num_zero(c2, n, w0, w1, wl, t, r, x);
    }
}

/// Soundness of the AIR: when every constraint's raw difference
/// vanishes on all the rows where the constraint applies, the trace is
/// a valid Fibonacci trace and its last row equals the claimed public
/// input. A dishonest prover's trace therefore violates some constraint
/// on some row.
pub proof fn lemma_air_sound(
    c0: Expr,
    c1: Expr,
    c2: Expr,
    c3: Expr,
    n: nat,
    w0: int,
    w1: int,
    wl: int,
    pi: u64,
    t: Seq<u64>,
    x: int,
)
    requires
        is_boundary_constraint(c0, w0, 1),
        is_boundary_constraint(c1, w1, 1),
        is_transition_constraint(c2, n, w0, w1, wl),
        is_boundary_constraint(c3, wl, pi as int),
        t.len() == n,
        n >= 2,
        forall|i: int| 0 <= i < n ==> is_elem(#[trigger] t[i] as int),
        is_elem(pi as int),
        eval_expr(num_of(c0), t, 0, x) == 0,
        eval_expr(num_of(c1), t, 1, x) == 0,
        forall|r: int| 2 <= r < n ==> eval_expr(raw_of(c2), t, r, x) == 0,
        eval_expr(num_of(c3), t, (n - 1) as int, x) == 0,
    ensures
        valid_trace(t),
        pi == t[n - 1],
{
    lemma_boundary_eval(c0, w0, 1, t, 0, x);
    lemma_boundary_eval(c1, w1, 1, t, 1, x);
    lemma_boundary_eval(c3, wl, pi as int, t, (n - 1) as int, x);
    assert forall|r: int| 2 <= r < t.len() implies #[trigger] t[r] == fadd(
        t[r - 1] as int,
        t[r - 2] as int,
    ) by {
        lemma_transition_raw_eval(c2, n, w0, w1, wl, t, r, x);
    }
}

/// Idempotence of constraint checking: the contract of
/// `check_constraints` pins its outcome as a function of the trace and
/// the claim alone, so any two checks of the same trace against the
/// same claim yield the same outcome, and neither call mutates either.
pub proof fn lemma_check_idempotent(b1: bool, b2: bool, input: u64, t: Seq<u64>)
    requires
        t.len() >= 1,
        b1 <==> (valid_trace(t) && input == t[t.len() - 1]),
        b2 <==> (valid_trace(t) && input == t[t.len() - 1]),
    ensures
        b1 == b2,
{
}

} // verus!
