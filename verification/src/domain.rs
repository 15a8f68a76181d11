//! The evaluation domain: the multiplicative subgroup
//! { omega^0, omega^1, ..., omega^(n-1) } of the field, for a primitive
//! nth root of unity omega and a power-of-two size n.

use vstd::prelude::*;
use crate::field::{fp_pow, fpow, is_elem};

verus! {

/// A generator of the field's full two-adic subgroup: a primitive
/// 2^32th root of unity (7 raised to (p - 1) / 2^32, for the smallest
/// generator 7 of the multiplicative group).
pub const TWO_ADIC_ROOT_OF_UNITY: u64 = 1753635133440165772;

/// The order of the field's two-adic subgroup: 2^32.
pub const TWO_ADIC_ORDER: u64 = 4294967296;

/// Whether a natural number is a power of two.
pub open spec fn is_pow2(n: nat) -> bool
    decreases n,
{
    if n == 0 {
        false
    } else if n == 1 {
        true
    } else {
        n % 2 == 0 && is_pow2(n / 2)
    }
}

/// Decides whether a number is a power of two, by halving.
pub fn is_power_of_two(n: usize) -> (b: bool)
    ensures
        b == is_pow2(n as nat),
{
    if n == 0 {
        return false;
    }
    let mut m: usize = n;
    while m % 2 == 0
        invariant
            m >= 1,
            is_pow2(n as nat) == is_pow2(m as nat),
        decreases m,
    {
        m = m / 2;
    }
    m == 1
}

/// The root of unity generating a domain of size n.
pub open spec fn domain_omega(n: nat) -> int
    recommends
        1 <= n <= TWO_ADIC_ORDER,
{
    fpow(TWO_ADIC_ROOT_OF_UNITY as int, (TWO_ADIC_ORDER as nat) / n)
}

/// The ith point of a domain of size n: omega^i.
pub open spec fn domain_element(n: nat, i: nat) -> int {
    fpow(domain_omega(n), i)
}

/// An evaluation domain of power-of-two size.
pub struct Domain {
    pub n: usize,
    pub omega: u64,
}

impl Domain {
    /// The domain holds its size and the matching root of unity.
    pub open spec fn wf(self) -> bool {
        &&& 2 <= self.n <= TWO_ADIC_ORDER
        &&& is_pow2(self.n as nat)
        &&& self.omega == domain_omega(self.n as nat)
        &&& is_elem(self.omega as int)
    }

    /// Builds the domain of the given size.
    pub fn new(n: usize) -> (r: Domain)
        requires
            2 <= n,
            n as u64 <= TWO_ADIC_ORDER,
            is_pow2(n as nat),
        ensures
            r.wf(),
            r.n == n,
    {
        let exponent: u64 = TWO_ADIC_ORDER / (n as u64);
        let omega: u64 = fp_pow(TWO_ADIC_ROOT_OF_UNITY, exponent);
        Domain { n, omega }
    }

    /// The number of points in the domain.
    pub fn size(&self) -> (r: usize)
        ensures
            r == self.n,
    {
        self.n
    }

    /// The ith domain point, omega^i.
    pub fn element(&self, i: u64) -> (r: u64)
        requires
            self.wf(),
        ensures
            r == domain_element(self.n as nat, i as nat),
            is_elem(r as int),
    {
        fp_pow(self.omega, i)
    }
}

} // verus!
