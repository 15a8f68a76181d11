//! Arithmetic in the prime field F_p with p = 2^64 - 2^32 + 1.
//!
//! Every field element is represented as a `u64` strictly below `P`.
//! The executable operations are proved against the mathematical
//! definitions `(a + b) % p`, `(a - b) % p`, `(a * b) % p` and
//! `pow(b, e) % p` over unbounded integers.

use vstd::prelude::*;
use vstd::arithmetic::power::pow;
use vstd::arithmetic::power::lemma_pow0;
use vstd::arithmetic::power::lemma_pow1;
use vstd::arithmetic::power::lemma_pow_adds;
use vstd::arithmetic::power::lemma_pow_multiplies;
use vstd::arithmetic::power::lemma_pow_mod_noop;
use vstd::arithmetic::power::lemma_square_is_pow2;
use vstd::arithmetic::div_mod::lemma_mul_mod_noop_right;
use vstd::arithmetic::div_mod::lemma_mul_mod_noop_general;
use vstd::calc;
use vstd::arithmetic::div_mod::lemma_small_mod;
use vstd::arithmetic::div_mod::lemma_mod_add_multiples_vanish;
use vstd::arithmetic::div_mod::lemma_mod_bound;
use vstd::arithmetic::mul::lemma_mul_upper_bound;

verus! {

/// The field modulus: 2^64 - 2^32 + 1.
pub const P: u64 = 18446744069414584321;

/// A value is a canonical field element when it is reduced below the modulus.
pub open spec fn is_elem(a: int) -> bool {
    0 <= a < P
}

/// Field addition: (a + b) mod p.
pub open spec fn fadd(a: int, b: int) -> int {
    (a + b) % (P as int)
}

/// Field subtraction: (a - b) mod p.
pub open spec fn fsub(a: int, b: int) -> int {
    (a - b) % (P as int)
}

/// Field multiplication: (a * b) mod p.
pub open spec fn fmul(a: int, b: int) -> int {
    (a * b) % (P as int)
}

/// Field exponentiation: b^e mod p.
pub open spec fn fpow(b: int, e: nat) -> int {
    pow(b, e) % (P as int)
}

/// Adds two field elements.
pub fn fp_add(a: u64, b: u64) -> (r: u64)
    requires
        is_elem(a as int),
        is_elem(b as int),
    ensures
        r == fadd(a as int, b as int),
        is_elem(r as int),
{
    let s: u128 = a as u128 + b as u128;
    let p: u128 = P as u128;
    if s >= p {
        proof {
            lemma_mod_add_multiples_vanish(a + b - P, P as int);
            lemma_small_mod((a + b - P) as nat, P as nat);
        }
        (s - p) as u64
    } else {
        proof {
            lemma_small_mod((a + b) as nat, P as nat);
        }
        s as u64
    }
}

/// Subtracts two field elements.
pub fn fp_sub(a: u64, b: u64) -> (r: u64)
    requires
        is_elem(a as int),
        is_elem(b as int),
    ensures
        r == fsub(a as int, b as int),
        is_elem(r as int),
{
    if a >= b {
        proof {
            lemma_small_mod((a - b) as nat, P as nat);
        }
        a - b
    } else {
        proof {
            lemma_mod_add_multiples_vanish(a - b, P as int);
            lemma_small_mod((a - b + P) as nat, P as nat);
        }
        a + (P - b)
    }
}

/// Multiplies two field elements.
pub fn fp_mul(a: u64, b: u64) -> (r: u64)
    requires
        is_elem(a as int),
        is_elem(b as int),
    ensures
        r == fmul(a as int, b as int),
        is_elem(r as int),
{
    proof {
        lemma_mul_upper_bound(a as int, P as int - 1, b as int, P as int - 1);
        assert(a as int * b as int <= (P as int - 1) * (P as int - 1));
        assert((P as int - 1) * (P as int - 1) <= u128::MAX as int) by (nonlinear_arith);
    }
    let prod: u128 = a as u128 * b as u128;
    let rem: u128 = prod % (P as u128);
    proof {
        lemma_mod_bound(prod as int, P as int);
    }
    rem as u64
}

/// One square-and-multiply step preserves the running product:
/// folding the low bit of `e` into `acc` and squaring `bb` leaves
/// `acc * bb^e` unchanged modulo p.
proof fn lemma_pow_step(acc: int, bb: int, e: nat)
    requires
        is_elem(acc),
        is_elem(bb),
        e > 0,
    ensures
        e % 2 == 0 ==> (acc * pow((bb * bb) % (P as int), e / 2)) % (P as int)
            == (acc * pow(bb, e)) % (P as int),
        e % 2 == 1 ==> ((acc * bb) % (P as int) * pow((bb * bb) % (P as int), e / 2))
            % (P as int) == (acc * pow(bb, e)) % (P as int),
{
    let p = P as int;
    let h = e / 2;
    lemma_pow_mod_noop(bb * bb, h, p);
    lemma_square_is_pow2(bb);
    lemma_pow_multiplies(bb, 2, h);
    assert(pow((bb * bb) % p, h) % p == pow(bb, 2 * h) % p);
    if e % 2 == 0 {
        assert(e == 2 * h);
        calc! {
            (==)
            (acc * pow((bb * bb) % p, h)) % p; {
                lemma_mul_mod_noop_right(acc, pow((bb * bb) % p, h), p);
            }
            (acc * (pow((bb * bb) % p, h) % p)) % p; {}
            (acc * (pow(bb, e) % p)) % p; {
                lemma_mul_mod_noop_right(acc, pow(bb, e), p);
            }
            (acc * pow(bb, e)) % p;
        }
    } else {
        assert(e == 2 * h + 1);
        lemma_pow_adds(bb, 2 * h, 1);
        lemma_pow1(bb);
        assert(pow(bb, e) == pow(bb, 2 * h) * bb);
        calc! {
            (==)
            ((acc * bb) % p * pow((bb * bb) % p, h)) % p; {
                lemma_mul_mod_noop_right((acc * bb) % p, pow((bb * bb) % p, h), p);
            }
            ((acc * bb) % p * (pow((bb * bb) % p, h) % p)) % p; {}
            ((acc * bb) % p * (pow(bb, 2 * h) % p)) % p; {
                lemma_mul_mod_noop_general(acc * bb, pow(bb, 2 * h), p);
            }
            ((acc * bb) * pow(bb, 2 * h)) % p; {
                assert((acc * bb) * pow(bb, 2 * h) == acc * (pow(bb, 2 * h) * bb))
                    by (nonlinear_arith);
            }
            (acc * (pow(bb, 2 * h) * bb)) % p; {}
            (acc * pow(bb, e)) % p;
        }
    }
}

/// Raises a field element to a power by square-and-multiply.
pub fn fp_pow(base: u64, exp: u64) -> (r: u64)
    requires
        is_elem(base as int),
    ensures
        r == fpow(base as int, exp as nat),
        is_elem(r as int),
{
    let mut result: u64 = 1;
    let mut bb: u64 = base;
    let mut e: u64 = exp;
    proof {
        lemma_mod_bound(pow(base as int, exp as nat), P as int);
    }
    while e > 0
        invariant
            is_elem(result as int),
            is_elem(bb as int),
            (result * pow(bb as int, e as nat)) % (P as int)
                == pow(base as int, exp as nat) % (P as int),
        decreases e,
    {
        proof {
            lemma_pow_step(result as int, bb as int, e as nat);
        }
        if e % 2 == 1 {
            result = fp_mul(result, bb);
        }
        bb = fp_mul(bb, bb);
        e = e / 2;
    }
    proof {
        lemma_pow0(bb as int);
        lemma_small_mod(result as nat, P as nat);
    }
    result
}

/// The multiplicative inverse of a nonzero field element, by Fermat's
/// little theorem; maps zero to zero.
pub fn fp_inv(a: u64) -> (r: u64)
    requires
        is_elem(a as int),
    ensures
        r == finv(a as int),
        is_elem(r as int),
{
    fp_pow(a, P - 2)
}

/// The inverse as a specification: a^(p-2) mod p.
pub open spec fn finv(a: int) -> int {
    fpow(a, (P - 2) as nat)
}

/// The difference of two canonical field elements is zero in the field
/// exactly when they are equal.
pub proof fn lemma_fsub_zero_iff_eq(a: int, b: int)
    requires
        is_elem(a),
        is_elem(b),
    ensures
        fsub(a, b) == 0 <==> a == b,
{
    if a >= b {
        lemma_small_mod((a - b) as nat, P as nat);
    } else {
        lemma_mod_add_multiples_vanish(a - b, P as int);
        lemma_small_mod((a - b + P) as nat, P as nat);
    }
}

} // verus!
