use fib_stark::air::{FibAir, TraceInfo, ProofOptions, numerator_of, raw_factor_of, vanish_all, x_minus};
use fib_stark::expr::Expr;
use fib_stark::trace::build_fib_matrix;
use fib_stark::domain::Domain;

fn options() -> ProofOptions {
    ProofOptions::new(30, 16, 16, 8, 64)
}

#[test]
fn four_constraints_are_assembled() {
    let air = FibAir::new(TraceInfo::new(1, 4), 3, options());
    let cs = air.constraints();
    assert_eq!(cs.len(), 4);
}

#[test]
fn boundary_constraints_have_expected_shape() {
    let air = FibAir::new(TraceInfo::new(1, 4), 3, options());
    let cs = air.constraints();
    let d = Domain::new(4);
    // first-row constraint: (current - 1) / (X - omega^0)
    match &cs[0] {
        Expr::Div(num, den) => {
            match &**num {
                Expr::Sub(a, b) => {
                    assert!(matches!(&**a, Expr::Trace(0, 0)));
                    assert!(matches!(&**b, Expr::Constant(1)));
                }
                _ => panic!("numerator is not a difference"),
            }
            match &**den {
                Expr::Sub(a, b) => {
                    assert!(matches!(&**a, Expr::X));
                    match &**b {
                        Expr::Constant(w) => assert_eq!(*w, d.element(0)),
                        _ => panic!("denominator does not subtract a constant"),
                    }
                }
                _ => panic!("denominator is not linear"),
            }
        }
        _ => panic!("boundary constraint is not a quotient"),
    }
    // last-row constraint: (current - claim) / (X - omega^3)
    match &cs[3] {
        Expr::Div(num, den) => {
            match &**num {
                Expr::Sub(_, b) => assert!(matches!(&**b, Expr::Constant(3))),
                _ => panic!("numerator is not a difference"),
            }
            match &**den {
                Expr::Sub(_, b) => match &**b {
                    Expr::Constant(w) => assert_eq!(*w, d.element(3)),
                    _ => panic!("denominator does not subtract a constant"),
                },
                _ => panic!("denominator is not linear"),
            }
        }
        _ => panic!("boundary constraint is not a quotient"),
    }
}

#[test]
fn transition_constraint_has_expected_shape() {
    let air = FibAir::new(TraceInfo::new(1, 4), 3, options());
    let cs = air.constraints();
    // denominator X^n - 1; numerator raw * (X-w0)(X-w1)(X-w3)
    match &cs[2] {
        Expr::Div(num, den) => {
            match &**den {
                Expr::Sub(a, b) => {
                    match &**a {
                        Expr::Pow(x, k) => {
                            assert!(matches!(&**x, Expr::X));
                            assert_eq!(*k, 4);
                        }
                        _ => panic!("denominator is not a power of X"),
                    }
                    assert!(matches!(&**b, Expr::Constant(1)));
                }
                _ => panic!("denominator is not X^n - 1"),
            }
            assert!(matches!(&**num, Expr::Mul(_, _)));
        }
        _ => panic!("transition constraint is not a quotient"),
    }
    let raw = raw_factor_of(&cs[2]);
    match raw {
        Expr::Sub(a, b) => {
            assert!(matches!(&**a, Expr::Trace(0, 0)));
            match &**b {
                Expr::Add(p1, p2) => {
                    assert!(matches!(&**p1, Expr::Trace(0, -1)));
                    assert!(matches!(&**p2, Expr::Trace(0, -2)));
                }
                _ => panic!("raw difference does not sum the two previous rows"),
            }
        }
        _ => panic!("raw difference is not a difference"),
    }
}

#[test]
fn vanishing_polynomial_vanishes_on_the_domain() {
    let column = build_fib_matrix(4);
    let d = Domain::new(4);
    let v = vanish_all(4);
    for i in 0..4u64 {
        assert_eq!(v.eval(&column, 0, d.element(i)), 0);
    }
    // and does not vanish off the domain: 2^4 - 1 = 15
    assert_eq!(v.eval(&column, 0, 2), 15);
}

#[test]
fn linear_factor_vanishes_at_its_point_only() {
    let column = build_fib_matrix(4);
    let d = Domain::new(4);
    let f = x_minus(d.element(1));
    assert_eq!(f.eval(&column, 0, d.element(1)), 0);
    assert_ne!(f.eval(&column, 0, d.element(2)), 0);
}

#[test]
fn quotient_evaluates_by_field_inverse() {
    let column = build_fib_matrix(2);
    // 6 / 3 = 2 in the field
    let q = Expr::Div(
        Box::new(Expr::Constant(6)),
        Box::new(Expr::Constant(3)),
    );
    assert_eq!(q.eval(&column, 0, 0), 2);
}

#[test]
fn trace_references_wrap_around_the_domain() {
    let column = build_fib_matrix(4);
    // at row 0, offset -1 reads the last row
    let prev = Expr::Trace(0, -1);
    assert_eq!(prev.eval(&column, 0, 0), 3);
    assert_eq!(prev.eval(&column, 2, 0), 1);
}

#[test]
fn boundary_numerators_vanish_only_where_owed() {
    let air = FibAir::new(TraceInfo::new(1, 4), 3, options());
    let cs = air.constraints();
    let column = build_fib_matrix(4);
    // first-row numerator: zero at rows 0 and 1 (both hold 1), not at 2
    assert_eq!(numerator_of(&cs[0]).eval(&column, 0, 0), 0);
    assert_eq!(numerator_of(&cs[1]).eval(&column, 1, 0), 0);
    assert_ne!(numerator_of(&cs[0]).eval(&column, 2, 0), 0);
    // last-row numerator: zero at row 3 where the trace meets the claim
    assert_eq!(numerator_of(&cs[3]).eval(&column, 3, 0), 0);
    assert_ne!(numerator_of(&cs[3]).eval(&column, 2, 0), 0);
}

#[test]
fn air_accessors_return_what_was_bound() {
    let info = TraceInfo::new(1, 8);
    let air = FibAir::new(info, 21, options());
    assert_eq!(air.pub_inputs(), 21);
    assert_eq!(air.trace_info(), info);
    assert_eq!(air.options(), options());
}
