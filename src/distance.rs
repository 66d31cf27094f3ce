//! Exact ray parameters as fractions, and their order.
use vstd::prelude::*;

verus! {

/// Bound on the numerator and denominator of every reported distance (2^56).
pub const DIST_BOUND: i128 = 72057594037927936;

/// The ray parameter `num / den` of a hit.
#[derive(Clone, Copy, Debug, PartialEq, Eq, Structural)]
pub struct Distance {
    pub num: i128,
    pub den: i128,
}

/// num1 / den1 <= num2 / den2, for positive denominators.
pub open spec fn frac_le(num1: int, den1: int, num2: int, den2: int) -> bool {
    num1 * den2 <= num2 * den1
}

impl View for Distance {
    type V = (int, int);

    open spec fn view(&self) -> (int, int) {
        (self.num as int, self.den as int)
    }
}

impl Distance {
    /// A positive parameter within the bounds.
    pub open spec fn wf(&self) -> bool {
        0 < self.num <= DIST_BOUND && 0 < self.den <= DIST_BOUND
    }

    /// Whether this parameter is at most the other one.
    pub fn le(&self, other: &Distance) -> (r: bool)
        requires
            self.wf(),
            other.wf(),
        ensures
            r == frac_le(self.num as int, self.den as int, other.num as int, other.den as int),
    {
        proof {
            lemma_product_bound(self.num as int, other.den as int);
            lemma_product_bound(other.num as int, self.den as int);
        }
        self.num * other.den <= other.num * self.den
    }
}

proof fn lemma_product_bound(x: int, y: int)
    requires
        0 < x <= DIST_BOUND,
        0 < y <= DIST_BOUND,
    ensures
        0 < x * y <= DIST_BOUND * DIST_BOUND,
{
    assert(0 < x * y <= DIST_BOUND * DIST_BOUND) by (nonlinear_arith)
        requires
            0 < x <= DIST_BOUND,
            0 < y <= DIST_BOUND,
    ;
}

/// The order of fractions is transitive.
pub proof fn lemma_frac_le_trans(n1: int, d1: int, n2: int, d2: int, n3: int, d3: int)
    requires
        d1 > 0,
        d2 > 0,
        d3 > 0,
        frac_le(n1, d1, n2, d2),
        frac_le(n2, d2, n3, d3),
    ensures
        frac_le(n1, d1, n3, d3),
{
    assert(n1 * d2 * d3 <= n2 * d1 * d3) by (nonlinear_arith)
        requires
            n1 * d2 <= n2 * d1,
            d3 > 0,
    ;
    assert(n2 * d3 * d1 <= n3 * d2 * d1) by (nonlinear_arith)
        requires
            n2 * d3 <= n3 * d2,
            d1 > 0,
    ;
    assert(n1 * d3 <= n3 * d1) by (nonlinear_arith)
        requires
            n1 * d2 * d3 <= n2 * d1 * d3,
            n2 * d3 * d1 <= n3 * d2 * d1,
            d2 > 0,
    ;
}

/// The order of fractions is total.
pub proof fn lemma_frac_le_total(n1: int, d1: int, n2: int, d2: int)
    ensures
        frac_le(n1, d1, n2, d2) || frac_le(n2, d2, n1, d1),
{
}

} // verus!
