//! Polynomial identities of the vector algebra, proved by expansion into
//! monomials: each product is distributed term by term and each monomial
//! put in a fixed order, after which both sides agree linearly. (Asked in
//! one step, the solver does not finish even the triple product identities.)
use vstd::prelude::*;
use crate::vector::{V3, cross, dot, vadd, vscale};

verus! {

/// The dot product is linear in its first argument.
pub proof fn lemma_dot_linear(k: int, a: V3, j: int, b: V3, c: V3)
    ensures
        dot(vadd(vscale(k, a), vscale(j, b)), c) == k * dot(a, c) + j * dot(b, c),
{
    assert((k * a.0) == (a.0 * k)) by (nonlinear_arith);
    assert((j * b.0) == (b.0 * j)) by (nonlinear_arith);
    assert((((k * a.0) + (j * b.0)) * c.0) == ((a.0 * c.0 * k) + (b.0 * c.0 * j))) by {
        assert((a.0 * k) * c.0 == (a.0 * c.0 * k)) by (nonlinear_arith);
        assert((b.0 * j) * c.0 == (b.0 * c.0 * j)) by (nonlinear_arith);
        lemma_mul_sums_2_1((a.0 * k), (b.0 * j), c.0);
    }
    assert((k * a.1) == (a.1 * k)) by (nonlinear_arith);
    assert((j * b.1) == (b.1 * j)) by (nonlinear_arith);
    assert((((k * a.1) + (j * b.1)) * c.1) == ((a.1 * c.1 * k) + (b.1 * c.1 * j))) by {
        assert((a.1 * k) * c.1 == (a.1 * c.1 * k)) by (nonlinear_arith);
        assert((b.1 * j) * c.1 == (b.1 * c.1 * j)) by (nonlinear_arith);
        lemma_mul_sums_2_1((a.1 * k), (b.1 * j), c.1);
    }
    assert((k * a.2) == (a.2 * k)) by (nonlinear_arith);
    assert((j * b.2) == (b.2 * j)) by (nonlinear_arith);
    assert((((k * a.2) + (j * b.2)) * c.2) == ((a.2 * c.2 * k) + (b.2 * c.2 * j))) by {
        assert((a.2 * k) * c.2 == (a.2 * c.2 * k)) by (nonlinear_arith);
        assert((b.2 * j) * c.2 == (b.2 * c.2 * j)) by (nonlinear_arith);
        lemma_mul_sums_2_1((a.2 * k), (b.2 * j), c.2);
    }
    assert((k * (((a.0 * c.0) + (a.1 * c.1)) + (a.2 * c.2))) == ((a.0 * c.0 * k) + (a.1 * c.1 * k) + (a.2 * c.2 * k))) by {
        assert(k * (a.0 * c.0) == (a.0 * c.0 * k)) by (nonlinear_arith);
        assert(k * (a.1 * c.1) == (a.1 * c.1 * k)) by (nonlinear_arith);
        assert(k * (a.2 * c.2) == (a.2 * c.2 * k)) by (nonlinear_arith);
        lemma_mul_sums_1_3(k, (a.0 * c.0), (a.1 * c.1), (a.2 * c.2));
    }
    assert((j * (((b.0 * c.0) + (b.1 * c.1)) + (b.2 * c.2))) == ((b.0 * c.0 * j) + (b.1 * c.1 * j) + (b.2 * c.2 * j))) by {
        assert(j * (b.0 * c.0) == (b.0 * c.0 * j)) by (nonlinear_arith);
        assert(j * (b.1 * c.1) == (b.1 * c.1 * j)) by (nonlinear_arith);
        assert(j * (b.2 * c.2) == (b.2 * c.2 * j)) by (nonlinear_arith);
        lemma_mul_sums_1_3(j, (b.0 * c.0), (b.1 * c.1), (b.2 * c.2));
    }
    assert((((((k * a.0) + (j * b.0)) * c.0) + (((k * a.1) + (j * b.1)) * c.1)) + (((k * a.2) + (j * b.2)) * c.2)) == ((k * (((a.0 * c.0) + (a.1 * c.1)) + (a.2 * c.2))) + (j * (((b.0 * c.0) + (b.1 * c.1)) + (b.2 * c.2)))));
}

/// A cross product is orthogonal to both of its factors.
pub proof fn lemma_cross_orthogonal(a: V3, b: V3)
    ensures
        dot(a, cross(a, b)) == 0,
        dot(b, cross(a, b)) == 0,
{
    assert((a.0 * ((a.1 * b.2) - (a.2 * b.1))) == ((a.0 * a.1 * b.2) + ((-1) * (a.0 * a.2 * b.1)))) by {
        assert(a.0 * (a.1 * b.2) == (a.0 * a.1 * b.2)) by (nonlinear_arith);
        assert(a.0 * ((-1) * (a.2 * b.1)) == ((-1) * (a.0 * a.2 * b.1))) by (nonlinear_arith);
        lemma_mul_sums_1_2(a.0, (a.1 * b.2), ((-1) * (a.2 * b.1)));
    }
    assert((a.1 * ((a.2 * b.0) - (a.0 * b.2))) == (((-1) * (a.0 * a.1 * b.2)) + (a.1 * a.2 * b.0))) by {
        assert(a.1 * ((-1) * (a.0 * b.2)) == ((-1) * (a.0 * a.1 * b.2))) by (nonlinear_arith);
        assert(a.1 * (a.2 * b.0) == (a.1 * a.2 * b.0)) by (nonlinear_arith);
        lemma_mul_sums_1_2(a.1, ((-1) * (a.0 * b.2)), (a.2 * b.0));
    }
    assert((a.2 * ((a.0 * b.1) - (a.1 * b.0))) == ((a.0 * a.2 * b.1) + ((-1) * (a.1 * a.2 * b.0)))) by {
        assert(a.2 * (a.0 * b.1) == (a.0 * a.2 * b.1)) by (nonlinear_arith);
        assert(a.2 * ((-1) * (a.1 * b.0)) == ((-1) * (a.1 * a.2 * b.0))) by (nonlinear_arith);
        lemma_mul_sums_1_2(a.2, (a.0 * b.1), ((-1) * (a.1 * b.0)));
    }
    assert((((a.0 * ((a.1 * b.2) - (a.2 * b.1))) + (a.1 * ((a.2 * b.0) - (a.0 * b.2)))) + (a.2 * ((a.0 * b.1) - (a.1 * b.0)))) == 0);
    assert((b.0 * ((a.1 * b.2) - (a.2 * b.1))) == ((a.1 * b.0 * b.2) + ((-1) * (a.2 * b.0 * b.1)))) by {
        assert(b.0 * (a.1 * b.2) == (a.1 * b.0 * b.2)) by (nonlinear_arith);
        assert(b.0 * ((-1) * (a.2 * b.1)) == ((-1) * (a.2 * b.0 * b.1))) by (nonlinear_arith);
        lemma_mul_sums_1_2(b.0, (a.1 * b.2), ((-1) * (a.2 * b.1)));
    }
    assert((b.1 * ((a.2 * b.0) - (a.0 * b.2))) == (((-1) * (a.0 * b.1 * b.2)) + (a.2 * b.0 * b.1))) by {
        assert(b.1 * ((-1) * (a.0 * b.2)) == ((-1) * (a.0 * b.1 * b.2))) by (nonlinear_arith);
        assert(b.1 * (a.2 * b.0) == (a.2 * b.0 * b.1)) by (nonlinear_arith);
        lemma_mul_sums_1_2(b.1, ((-1) * (a.0 * b.2)), (a.2 * b.0));
    }
    assert((b.2 * ((a.0 * b.1) - (a.1 * b.0))) == ((a.0 * b.1 * b.2) + ((-1) * (a.1 * b.0 * b.2)))) by {
        assert(b.2 * (a.0 * b.1) == (a.0 * b.1 * b.2)) by (nonlinear_arith);
        assert(b.2 * ((-1) * (a.1 * b.0)) == ((-1) * (a.1 * b.0 * b.2))) by (nonlinear_arith);
        lemma_mul_sums_1_2(b.2, (a.0 * b.1), ((-1) * (a.1 * b.0)));
    }
    assert((((b.0 * ((a.1 * b.2) - (a.2 * b.1))) + (b.1 * ((a.2 * b.0) - (a.0 * b.2)))) + (b.2 * ((a.0 * b.1) - (a.1 * b.0)))) == 0);
}

/// The scalar triple product is invariant under a cyclic permutation of
/// its factors and changes sign under a swap.
pub proof fn lemma_triple_cyclic(a: V3, b: V3, c: V3)
    ensures
        dot(a, cross(b, c)) == dot(b, cross(c, a)),
        dot(a, cross(b, c)) == dot(c, cross(a, b)),
        dot(a, cross(b, c)) == -dot(a, cross(c, b)),
{
    assert((a.0 * ((b.1 * c.2) - (b.2 * c.1))) == ((a.0 * b.1 * c.2) + ((-1) * (a.0 * b.2 * c.1)))) by {
        assert(a.0 * (b.1 * c.2) == (a.0 * b.1 * c.2)) by (nonlinear_arith);
        assert(a.0 * ((-1) * (b.2 * c.1)) == ((-1) * (a.0 * b.2 * c.1))) by (nonlinear_arith);
        lemma_mul_sums_1_2(a.0, (b.1 * c.2), ((-1) * (b.2 * c.1)));
    }
    assert((a.1 * ((b.2 * c.0) - (b.0 * c.2))) == (((-1) * (a.1 * b.0 * c.2)) + (a.1 * b.2 * c.0))) by {
        assert(a.1 * ((-1) * (b.0 * c.2)) == ((-1) * (a.1 * b.0 * c.2))) by (nonlinear_arith);
        assert(a.1 * (b.2 * c.0) == (a.1 * b.2 * c.0)) by (nonlinear_arith);
        lemma_mul_sums_1_2(a.1, ((-1) * (b.0 * c.2)), (b.2 * c.0));
    }
    assert((a.2 * ((b.0 * c.1) - (b.1 * c.0))) == ((a.2 * b.0 * c.1) + ((-1) * (a.2 * b.1 * c.0)))) by {
        assert(a.2 * (b.0 * c.1) == (a.2 * b.0 * c.1)) by (nonlinear_arith);
        assert(a.2 * ((-1) * (b.1 * c.0)) == ((-1) * (a.2 * b.1 * c.0))) by (nonlinear_arith);
        lemma_mul_sums_1_2(a.2, (b.0 * c.1), ((-1) * (b.1 * c.0)));
    }
    assert((c.1 * a.2) == (a.2 * c.1)) by (nonlinear_arith);
    assert((c.2 * a.1) == (a.1 * c.2)) by (nonlinear_arith);
    assert((b.0 * ((c.1 * a.2) - (c.2 * a.1))) == (((-1) * (a.1 * b.0 * c.2)) + (a.2 * b.0 * c.1))) by {
        assert(b.0 * ((-1) * (a.1 * c.2)) == ((-1) * (a.1 * b.0 * c.2))) by (nonlinear_arith);
        assert(b.0 * (a.2 * c.1) == (a.2 * b.0 * c.1)) by (nonlinear_arith);
        lemma_mul_sums_1_2(b.0, ((-1) * (a.1 * c.2)), (a.2 * c.1));
    }
    assert((c.2 * a.0) == (a.0 * c.2)) by (nonlinear_arith);
    assert((c.0 * a.2) == (a.2 * c.0)) by (nonlinear_arith);
    assert((b.1 * ((c.2 * a.0) - (c.0 * a.2))) == ((a.0 * b.1 * c.2) + ((-1) * (a.2 * b.1 * c.0)))) by {
        assert(b.1 * (a.0 * c.2) == (a.0 * b.1 * c.2)) by (nonlinear_arith);
        assert(b.1 * ((-1) * (a.2 * c.0)) == ((-1) * (a.2 * b.1 * c.0))) by (nonlinear_arith);
        lemma_mul_sums_1_2(b.1, (a.0 * c.2), ((-1) * (a.2 * c.0)));
    }
    assert((c.0 * a.1) == (a.1 * c.0)) by (nonlinear_arith);
    assert((c.1 * a.0) == (a.0 * c.1)) by (nonlinear_arith);
    assert((b.2 * ((c.0 * a.1) - (c.1 * a.0))) == (((-1) * (a.0 * b.2 * c.1)) + (a.1 * b.2 * c.0))) by {
        assert(b.2 * ((-1) * (a.0 * c.1)) == ((-1) * (a.0 * b.2 * c.1))) by (nonlinear_arith);
        assert(b.2 * (a.1 * c.0) == (a.1 * b.2 * c.0)) by (nonlinear_arith);
        lemma_mul_sums_1_2(b.2, ((-1) * (a.0 * c.1)), (a.1 * c.0));
    }
    assert((((a.0 * ((b.1 * c.2) - (b.2 * c.1))) + (a.1 * ((b.2 * c.0) - (b.0 * c.2)))) + (a.2 * ((b.0 * c.1) - (b.1 * c.0)))) == (((b.0 * ((c.1 * a.2) - (c.2 * a.1))) + (b.1 * ((c.2 * a.0) - (c.0 * a.2)))) + (b.2 * ((c.0 * a.1) - (c.1 * a.0)))));
    assert((a.0 * ((b.1 * c.2) - (b.2 * c.1))) == ((a.0 * b.1 * c.2) + ((-1) * (a.0 * b.2 * c.1)))) by {
        assert(a.0 * (b.1 * c.2) == (a.0 * b.1 * c.2)) by (nonlinear_arith);
        assert(a.0 * ((-1) * (b.2 * c.1)) == ((-1) * (a.0 * b.2 * c.1))) by (nonlinear_arith);
        lemma_mul_sums_1_2(a.0, (b.1 * c.2), ((-1) * (b.2 * c.1)));
    }
    assert((a.1 * ((b.2 * c.0) - (b.0 * c.2))) == (((-1) * (a.1 * b.0 * c.2)) + (a.1 * b.2 * c.0))) by {
        assert(a.1 * ((-1) * (b.0 * c.2)) == ((-1) * (a.1 * b.0 * c.2))) by (nonlinear_arith);
        assert(a.1 * (b.2 * c.0) == (a.1 * b.2 * c.0)) by (nonlinear_arith);
        lemma_mul_sums_1_2(a.1, ((-1) * (b.0 * c.2)), (b.2 * c.0));
    }
    assert((a.2 * ((b.0 * c.1) - (b.1 * c.0))) == ((a.2 * b.0 * c.1) + ((-1) * (a.2 * b.1 * c.0)))) by {
        assert(a.2 * (b.0 * c.1) == (a.2 * b.0 * c.1)) by (nonlinear_arith);
        assert(a.2 * ((-1) * (b.1 * c.0)) == ((-1) * (a.2 * b.1 * c.0))) by (nonlinear_arith);
        lemma_mul_sums_1_2(a.2, (b.0 * c.1), ((-1) * (b.1 * c.0)));
    }
    assert((c.0 * ((a.1 * b.2) - (a.2 * b.1))) == ((a.1 * b.2 * c.0) + ((-1) * (a.2 * b.1 * c.0)))) by {
        assert(c.0 * (a.1 * b.2) == (a.1 * b.2 * c.0)) by (nonlinear_arith);
        assert(c.0 * ((-1) * (a.2 * b.1)) == ((-1) * (a.2 * b.1 * c.0))) by (nonlinear_arith);
        lemma_mul_sums_1_2(c.0, (a.1 * b.2), ((-1) * (a.2 * b.1)));
    }
    assert((c.1 * ((a.2 * b.0) - (a.0 * b.2))) == (((-1) * (a.0 * b.2 * c.1)) + (a.2 * b.0 * c.1))) by {
        assert(c.1 * ((-1) * (a.0 * b.2)) == ((-1) * (a.0 * b.2 * c.1))) by (nonlinear_arith);
        assert(c.1 * (a.2 * b.0) == (a.2 * b.0 * c.1)) by (nonlinear_arith);
        lemma_mul_sums_1_2(c.1, ((-1) * (a.0 * b.2)), (a.2 * b.0));
    }
    assert((c.2 * ((a.0 * b.1) - (a.1 * b.0))) == ((a.0 * b.1 * c.2) + ((-1) * (a.1 * b.0 * c.2)))) by {
        assert(c.2 * (a.0 * b.1) == (a.0 * b.1 * c.2)) by (nonlinear_arith);
        assert(c.2 * ((-1) * (a.1 * b.0)) == ((-1) * (a.1 * b.0 * c.2))) by (nonlinear_arith);
        lemma_mul_sums_1_2(c.2, (a.0 * b.1), ((-1) * (a.1 * b.0)));
    }
    assert((((a.0 * ((b.1 * c.2) - (b.2 * c.1))) + (a.1 * ((b.2 * c.0) - (b.0 * c.2)))) + (a.2 * ((b.0 * c.1) - (b.1 * c.0)))) == (((c.0 * ((a.1 * b.2) - (a.2 * b.1))) + (c.1 * ((a.2 * b.0) - (a.0 * b.2)))) + (c.2 * ((a.0 * b.1) - (a.1 * b.0)))));
    assert((a.0 * ((b.1 * c.2) - (b.2 * c.1))) == ((a.0 * b.1 * c.2) + ((-1) * (a.0 * b.2 * c.1)))) by {
        assert(a.0 * (b.1 * c.2) == (a.0 * b.1 * c.2)) by (nonlinear_arith);
        assert(a.0 * ((-1) * (b.2 * c.1)) == ((-1) * (a.0 * b.2 * c.1))) by (nonlinear_arith);
        lemma_mul_sums_1_2(a.0, (b.1 * c.2), ((-1) * (b.2 * c.1)));
    }
    assert((a.1 * ((b.2 * c.0) - (b.0 * c.2))) == (((-1) * (a.1 * b.0 * c.2)) + (a.1 * b.2 * c.0))) by {
        assert(a.1 * ((-1) * (b.0 * c.2)) == ((-1) * (a.1 * b.0 * c.2))) by (nonlinear_arith);
        assert(a.1 * (b.2 * c.0) == (a.1 * b.2 * c.0)) by (nonlinear_arith);
        lemma_mul_sums_1_2(a.1, ((-1) * (b.0 * c.2)), (b.2 * c.0));
    }
    assert((a.2 * ((b.0 * c.1) - (b.1 * c.0))) == ((a.2 * b.0 * c.1) + ((-1) * (a.2 * b.1 * c.0)))) by {
        assert(a.2 * (b.0 * c.1) == (a.2 * b.0 * c.1)) by (nonlinear_arith);
        assert(a.2 * ((-1) * (b.1 * c.0)) == ((-1) * (a.2 * b.1 * c.0))) by (nonlinear_arith);
        lemma_mul_sums_1_2(a.2, (b.0 * c.1), ((-1) * (b.1 * c.0)));
    }
    assert((c.1 * b.2) == (b.2 * c.1)) by (nonlinear_arith);
    assert((c.2 * b.1) == (b.1 * c.2)) by (nonlinear_arith);
    assert((a.0 * ((c.1 * b.2) - (c.2 * b.1))) == (((-1) * (a.0 * b.1 * c.2)) + (a.0 * b.2 * c.1))) by {
        assert(a.0 * ((-1) * (b.1 * c.2)) == ((-1) * (a.0 * b.1 * c.2))) by (nonlinear_arith);
        assert(a.0 * (b.2 * c.1) == (a.0 * b.2 * c.1)) by (nonlinear_arith);
        lemma_mul_sums_1_2(a.0, ((-1) * (b.1 * c.2)), (b.2 * c.1));
    }
    assert((c.2 * b.0) == (b.0 * c.2)) by (nonlinear_arith);
    assert((c.0 * b.2) == (b.2 * c.0)) by (nonlinear_arith);
    assert((a.1 * ((c.2 * b.0) - (c.0 * b.2))) == ((a.1 * b.0 * c.2) + ((-1) * (a.1 * b.2 * c.0)))) by {
        assert(a.1 * (b.0 * c.2) == (a.1 * b.0 * c.2)) by (nonlinear_arith);
        assert(a.1 * ((-1) * (b.2 * c.0)) == ((-1) * (a.1 * b.2 * c.0))) by (nonlinear_arith);
        lemma_mul_sums_1_2(a.1, (b.0 * c.2), ((-1) * (b.2 * c.0)));
    }
    assert((c.0 * b.1) == (b.1 * c.0)) by (nonlinear_arith);
    assert((c.1 * b.0) == (b.0 * c.1)) by (nonlinear_arith);
    assert((a.2 * ((c.0 * b.1) - (c.1 * b.0))) == (((-1) * (a.2 * b.0 * c.1)) + (a.2 * b.1 * c.0))) by {
        assert(a.2 * ((-1) * (b.0 * c.1)) == ((-1) * (a.2 * b.0 * c.1))) by (nonlinear_arith);
        assert(a.2 * (b.1 * c.0) == (a.2 * b.1 * c.0)) by (nonlinear_arith);
        lemma_mul_sums_1_2(a.2, ((-1) * (b.0 * c.1)), (b.1 * c.0));
    }
    assert((((a.0 * ((b.1 * c.2) - (b.2 * c.1))) + (a.1 * ((b.2 * c.0) - (b.0 * c.2)))) + (a.2 * ((b.0 * c.1) - (b.1 * c.0)))) == (0 - (((a.0 * ((c.1 * b.2) - (c.2 * b.1))) + (a.1 * ((c.2 * b.0) - (c.0 * b.2)))) + (a.2 * ((c.0 * b.1) - (c.1 * b.0))))));
}

/// Cramer's rule in space: with det = e1 . (d x e2), the vector
/// det * s + (e2 . (s x e1)) * d equals (s . (d x e2)) * e1 + (d . (s x e1)) * e2.
pub proof fn lemma_cramer(s: V3, d: V3, e1: V3, e2: V3)
    ensures
        dot(e1, cross(d, e2)) * s.0 + dot(e2, cross(s, e1)) * d.0 == dot(s, cross(d, e2)) * e1.0 + dot(d, cross(s, e1)) * e2.0,
        dot(e1, cross(d, e2)) * s.1 + dot(e2, cross(s, e1)) * d.1 == dot(s, cross(d, e2)) * e1.1 + dot(d, cross(s, e1)) * e2.1,
        dot(e1, cross(d, e2)) * s.2 + dot(e2, cross(s, e1)) * d.2 == dot(s, cross(d, e2)) * e1.2 + dot(d, cross(s, e1)) * e2.2,
{
    assert((e1.0 * ((d.1 * e2.2) - (d.2 * e2.1))) == ((d.1 * e1.0 * e2.2) + ((-1) * (d.2 * e1.0 * e2.1)))) by {
        assert(e1.0 * (d.1 * e2.2) == (d.1 * e1.0 * e2.2)) by (nonlinear_arith);
        assert(e1.0 * ((-1) * (d.2 * e2.1)) == ((-1) * (d.2 * e1.0 * e2.1))) by (nonlinear_arith);
        lemma_mul_sums_1_2(e1.0, (d.1 * e2.2), ((-1) * (d.2 * e2.1)));
    }
    assert((e1.1 * ((d.2 * e2.0) - (d.0 * e2.2))) == (((-1) * (d.0 * e1.1 * e2.2)) + (d.2 * e1.1 * e2.0))) by {
        assert(e1.1 * ((-1) * (d.0 * e2.2)) == ((-1) * (d.0 * e1.1 * e2.2))) by (nonlinear_arith);
        assert(e1.1 * (d.2 * e2.0) == (d.2 * e1.1 * e2.0)) by (nonlinear_arith);
        lemma_mul_sums_1_2(e1.1, ((-1) * (d.0 * e2.2)), (d.2 * e2.0));
    }
    assert((e1.2 * ((d.0 * e2.1) - (d.1 * e2.0))) == ((d.0 * e1.2 * e2.1) + ((-1) * (d.1 * e1.2 * e2.0)))) by {
        assert(e1.2 * (d.0 * e2.1) == (d.0 * e1.2 * e2.1)) by (nonlinear_arith);
        assert(e1.2 * ((-1) * (d.1 * e2.0)) == ((-1) * (d.1 * e1.2 * e2.0))) by (nonlinear_arith);
        lemma_mul_sums_1_2(e1.2, (d.0 * e2.1), ((-1) * (d.1 * e2.0)));
    }
    assert(((((e1.0 * ((d.1 * e2.2) - (d.2 * e2.1))) + (e1.1 * ((d.2 * e2.0) - (d.0 * e2.2)))) + (e1.2 * ((d.0 * e2.1) - (d.1 * e2.0)))) * s.0) == (((-1) * (d.0 * e1.1 * e2.2 * s.0)) + (d.0 * e1.2 * e2.1 * s.0) + (d.1 * e1.0 * e2.2 * s.0) + ((-1) * (d.1 * e1.2 * e2.0 * s.0)) + ((-1) * (d.2 * e1.0 * e2.1 * s.0)) + (d.2 * e1.1 * e2.0 * s.0))) by {
        assert(((-1) * (d.0 * e1.1 * e2.2)) * s.0 == ((-1) * (d.0 * e1.1 * e2.2 * s.0))) by (nonlinear_arith);
        assert((d.0 * e1.2 * e2.1) * s.0 == (d.0 * e1.2 * e2.1 * s.0)) by (nonlinear_arith);
        assert((d.1 * e1.0 * e2.2) * s.0 == (d.1 * e1.0 * e2.2 * s.0)) by (nonlinear_arith);
        assert(((-1) * (d.1 * e1.2 * e2.0)) * s.0 == ((-1) * (d.1 * e1.2 * e2.0 * s.0))) by (nonlinear_arith);
        assert(((-1) * (d.2 * e1.0 * e2.1)) * s.0 == ((-1) * (d.2 * e1.0 * e2.1 * s.0))) by (nonlinear_arith);
        assert((d.2 * e1.1 * e2.0) * s.0 == (d.2 * e1.1 * e2.0 * s.0)) by (nonlinear_arith);
        lemma_mul_sums_6_1(((-1) * (d.0 * e1.1 * e2.2)), (d.0 * e1.2 * e2.1), (d.1 * e1.0 * e2.2), ((-1) * (d.1 * e1.2 * e2.0)), ((-1) * (d.2 * e1.0 * e2.1)), (d.2 * e1.1 * e2.0), s.0);
    }
    assert((s.1 * e1.2) == (e1.2 * s.1)) by (nonlinear_arith);
    assert((s.2 * e1.1) == (e1.1 * s.2)) by (nonlinear_arith);
    assert((e2.0 * ((s.1 * e1.2) - (s.2 * e1.1))) == (((-1) * (e1.1 * e2.0 * s.2)) + (e1.2 * e2.0 * s.1))) by {
        assert(e2.0 * ((-1) * (e1.1 * s.2)) == ((-1) * (e1.1 * e2.0 * s.2))) by (nonlinear_arith);
        assert(e2.0 * (e1.2 * s.1) == (e1.2 * e2.0 * s.1)) by (nonlinear_arith);
        lemma_mul_sums_1_2(e2.0, ((-1) * (e1.1 * s.2)), (e1.2 * s.1));
    }
    assert((s.2 * e1.0) == (e1.0 * s.2)) by (nonlinear_arith);
    assert((s.0 * e1.2) == (e1.2 * s.0)) by (nonlinear_arith);
    assert((e2.1 * ((s.2 * e1.0) - (s.0 * e1.2))) == ((e1.0 * e2.1 * s.2) + ((-1) * (e1.2 * e2.1 * s.0)))) by {
        assert(e2.1 * (e1.0 * s.2) == (e1.0 * e2.1 * s.2)) by (nonlinear_arith);
        assert(e2.1 * ((-1) * (e1.2 * s.0)) == ((-1) * (e1.2 * e2.1 * s.0))) by (nonlinear_arith);
        lemma_mul_sums_1_2(e2.1, (e1.0 * s.2), ((-1) * (e1.2 * s.0)));
    }
    assert((s.0 * e1.1) == (e1.1 * s.0)) by (nonlinear_arith);
    assert((s.1 * e1.0) == (e1.0 * s.1)) by (nonlinear_arith);
    assert((e2.2 * ((s.0 * e1.1) - (s.1 * e1.0))) == (((-1) * (e1.0 * e2.2 * s.1)) + (e1.1 * e2.2 * s.0))) by {
        assert(e2.2 * ((-1) * (e1.0 * s.1)) == ((-1) * (e1.0 * e2.2 * s.1))) by (nonlinear_arith);
        assert(e2.2 * (e1.1 * s.0) == (e1.1 * e2.2 * s.0)) by (nonlinear_arith);
        lemma_mul_sums_1_2(e2.2, ((-1) * (e1.0 * s.1)), (e1.1 * s.0));
    }
    assert(((((e2.0 * ((s.1 * e1.2) - (s.2 * e1.1))) + (e2.1 * ((s.2 * e1.0) - (s.0 * e1.2)))) + (e2.2 * ((s.0 * e1.1) - (s.1 * e1.0)))) * d.0) == ((d.0 * e1.0 * e2.1 * s.2) + ((-1) * (d.0 * e1.0 * e2.2 * s.1)) + ((-1) * (d.0 * e1.1 * e2.0 * s.2)) + (d.0 * e1.1 * e2.2 * s.0) + (d.0 * e1.2 * e2.0 * s.1) + ((-1) * (d.0 * e1.2 * e2.1 * s.0)))) by {
        assert((e1.0 * e2.1 * s.2) * d.0 == (d.0 * e1.0 * e2.1 * s.2)) by (nonlinear_arith);
        assert(((-1) * (e1.0 * e2.2 * s.1)) * d.0 == ((-1) * (d.0 * e1.0 * e2.2 * s.1))) by (nonlinear_arith);
        assert(((-1) * (e1.1 * e2.0 * s.2)) * d.0 == ((-1) * (d.0 * e1.1 * e2.0 * s.2))) by (nonlinear_arith);
        assert((e1.1 * e2.2 * s.0) * d.0 == (d.0 * e1.1 * e2.2 * s.0)) by (nonlinear_arith);
        assert((e1.2 * e2.0 * s.1) * d.0 == (d.0 * e1.2 * e2.0 * s.1)) by (nonlinear_arith);
        assert(((-1) * (e1.2 * e2.1 * s.0)) * d.0 == ((-1) * (d.0 * e1.2 * e2.1 * s.0))) by (nonlinear_arith);
        lemma_mul_sums_6_1((e1.0 * e2.1 * s.2), ((-1) * (e1.0 * e2.2 * s.1)), ((-1) * (e1.1 * e2.0 * s.2)), (e1.1 * e2.2 * s.0), (e1.2 * e2.0 * s.1), ((-1) * (e1.2 * e2.1 * s.0)), d.0);
    }
    assert((s.0 * ((d.1 * e2.2) - (d.2 * e2.1))) == ((d.1 * e2.2 * s.0) + ((-1) * (d.2 * e2.1 * s.0)))) by {
        assert(s.0 * (d.1 * e2.2) == (d.1 * e2.2 * s.0)) by (nonlinear_arith);
        assert(s.0 * ((-1) * (d.2 * e2.1)) == ((-1) * (d.2 * e2.1 * s.0))) by (nonlinear_arith);
        lemma_mul_sums_1_2(s.0, (d.1 * e2.2), ((-1) * (d.2 * e2.1)));
    }
    assert((s.1 * ((d.2 * e2.0) - (d.0 * e2.2))) == (((-1) * (d.0 * e2.2 * s.1)) + (d.2 * e2.0 * s.1))) by {
        assert(s.1 * ((-1) * (d.0 * e2.2)) == ((-1) * (d.0 * e2.2 * s.1))) by (nonlinear_arith);
        assert(s.1 * (d.2 * e2.0) == (d.2 * e2.0 * s.1)) by (nonlinear_arith);
        lemma_mul_sums_1_2(s.1, ((-1) * (d.0 * e2.2)), (d.2 * e2.0));
    }
    assert((s.2 * ((d.0 * e2.1) - (d.1 * e2.0))) == ((d.0 * e2.1 * s.2) + ((-1) * (d.1 * e2.0 * s.2)))) by {
        assert(s.2 * (d.0 * e2.1) == (d.0 * e2.1 * s.2)) by (nonlinear_arith);
        assert(s.2 * ((-1) * (d.1 * e2.0)) == ((-1) * (d.1 * e2.0 * s.2))) by (nonlinear_arith);
        lemma_mul_sums_1_2(s.2, (d.0 * e2.1), ((-1) * (d.1 * e2.0)));
    }
    assert(((((s.0 * ((d.1 * e2.2) - (d.2 * e2.1))) + (s.1 * ((d.2 * e2.0) - (d.0 * e2.2)))) + (s.2 * ((d.0 * e2.1) - (d.1 * e2.0)))) * e1.0) == ((d.0 * e1.0 * e2.1 * s.2) + ((-1) * (d.0 * e1.0 * e2.2 * s.1)) + ((-1) * (d.1 * e1.0 * e2.0 * s.2)) + (d.1 * e1.0 * e2.2 * s.0) + (d.2 * e1.0 * e2.0 * s.1) + ((-1) * (d.2 * e1.0 * e2.1 * s.0)))) by {
        assert((d.0 * e2.1 * s.2) * e1.0 == (d.0 * e1.0 * e2.1 * s.2)) by (nonlinear_arith);
        assert(((-1) * (d.0 * e2.2 * s.1)) * e1.0 == ((-1) * (d.0 * e1.0 * e2.2 * s.1))) by (nonlinear_arith);
        assert(((-1) * (d.1 * e2.0 * s.2)) * e1.0 == ((-1) * (d.1 * e1.0 * e2.0 * s.2))) by (nonlinear_arith);
        assert((d.1 * e2.2 * s.0) * e1.0 == (d.1 * e1.0 * e2.2 * s.0)) by (nonlinear_arith);
        assert((d.2 * e2.0 * s.1) * e1.0 == (d.2 * e1.0 * e2.0 * s.1)) by (nonlinear_arith);
        assert(((-1) * (d.2 * e2.1 * s.0)) * e1.0 == ((-1) * (d.2 * e1.0 * e2.1 * s.0))) by (nonlinear_arith);
        lemma_mul_sums_6_1((d.0 * e2.1 * s.2), ((-1) * (d.0 * e2.2 * s.1)), ((-1) * (d.1 * e2.0 * s.2)), (d.1 * e2.2 * s.0), (d.2 * e2.0 * s.1), ((-1) * (d.2 * e2.1 * s.0)), e1.0);
    }
    assert((s.1 * e1.2) == (e1.2 * s.1)) by (nonlinear_arith);
    assert((s.2 * e1.1) == (e1.1 * s.2)) by (nonlinear_arith);
    assert((d.0 * ((s.1 * e1.2) - (s.2 * e1.1))) == (((-1) * (d.0 * e1.1 * s.2)) + (d.0 * e1.2 * s.1))) by {
        assert(d.0 * ((-1) * (e1.1 * s.2)) == ((-1) * (d.0 * e1.1 * s.2))) by (nonlinear_arith);
        assert(d.0 * (e1.2 * s.1) == (d.0 * e1.2 * s.1)) by (nonlinear_arith);
        lemma_mul_sums_1_2(d.0, ((-1) * (e1.1 * s.2)), (e1.2 * s.1));
    }
    assert((s.2 * e1.0) == (e1.0 * s.2)) by (nonlinear_arith);
    assert((s.0 * e1.2) == (e1.2 * s.0)) by (nonlinear_arith);
    assert((d.1 * ((s.2 * e1.0) - (s.0 * e1.2))) == ((d.1 * e1.0 * s.2) + ((-1) * (d.1 * e1.2 * s.0)))) by {
        assert(d.1 * (e1.0 * s.2) == (d.1 * e1.0 * s.2)) by (nonlinear_arith);
        assert(d.1 * ((-1) * (e1.2 * s.0)) == ((-1) * (d.1 * e1.2 * s.0))) by (nonlinear_arith);
        lemma_mul_sums_1_2(d.1, (e1.0 * s.2), ((-1) * (e1.2 * s.0)));
    }
    assert((s.0 * e1.1) == (e1.1 * s.0)) by (nonlinear_arith);
    assert((s.1 * e1.0) == (e1.0 * s.1)) by (nonlinear_arith);
    assert((d.2 * ((s.0 * e1.1) - (s.1 * e1.0))) == (((-1) * (d.2 * e1.0 * s.1)) + (d.2 * e1.1 * s.0))) by {
        assert(d.2 * ((-1) * (e1.0 * s.1)) == ((-1) * (d.2 * e1.0 * s.1))) by (nonlinear_arith);
        assert(d.2 * (e1.1 * s.0) == (d.2 * e1.1 * s.0)) by (nonlinear_arith);
        lemma_mul_sums_1_2(d.2, ((-1) * (e1.0 * s.1)), (e1.1 * s.0));
    }
    assert(((((d.0 * ((s.1 * e1.2) - (s.2 * e1.1))) + (d.1 * ((s.2 * e1.0) - (s.0 * e1.2)))) + (d.2 * ((s.0 * e1.1) - (s.1 * e1.0)))) * e2.0) == (((-1) * (d.0 * e1.1 * e2.0 * s.2)) + (d.0 * e1.2 * e2.0 * s.1) + (d.1 * e1.0 * e2.0 * s.2) + ((-1) * (d.1 * e1.2 * e2.0 * s.0)) + ((-1) * (d.2 * e1.0 * e2.0 * s.1)) + (d.2 * e1.1 * e2.0 * s.0))) by {
        assert(((-1) * (d.0 * e1.1 * s.2)) * e2.0 == ((-1) * (d.0 * e1.1 * e2.0 * s.2))) by (nonlinear_arith);
        assert((d.0 * e1.2 * s.1) * e2.0 == (d.0 * e1.2 * e2.0 * s.1)) by (nonlinear_arith);
        assert((d.1 * e1.0 * s.2) * e2.0 == (d.1 * e1.0 * e2.0 * s.2)) by (nonlinear_arith);
        assert(((-1) * (d.1 * e1.2 * s.0)) * e2.0 == ((-1) * (d.1 * e1.2 * e2.0 * s.0))) by (nonlinear_arith);
        assert(((-1) * (d.2 * e1.0 * s.1)) * e2.0 == ((-1) * (d.2 * e1.0 * e2.0 * s.1))) by (nonlinear_arith);
        assert((d.2 * e1.1 * s.0) * e2.0 == (d.2 * e1.1 * e2.0 * s.0)) by (nonlinear_arith);
        lemma_mul_sums_6_1(((-1) * (d.0 * e1.1 * s.2)), (d.0 * e1.2 * s.1), (d.1 * e1.0 * s.2), ((-1) * (d.1 * e1.2 * s.0)), ((-1) * (d.2 * e1.0 * s.1)), (d.2 * e1.1 * s.0), e2.0);
    }
    assert((((((e1.0 * ((d.1 * e2.2) - (d.2 * e2.1))) + (e1.1 * ((d.2 * e2.0) - (d.0 * e2.2)))) + (e1.2 * ((d.0 * e2.1) - (d.1 * e2.0)))) * s.0) + ((((e2.0 * ((s.1 * e1.2) - (s.2 * e1.1))) + (e2.1 * ((s.2 * e1.0) - (s.0 * e1.2)))) + (e2.2 * ((s.0 * e1.1) - (s.1 * e1.0)))) * d.0)) == (((((s.0 * ((d.1 * e2.2) - (d.2 * e2.1))) + (s.1 * ((d.2 * e2.0) - (d.0 * e2.2)))) + (s.2 * ((d.0 * e2.1) - (d.1 * e2.0)))) * e1.0) + ((((d.0 * ((s.1 * e1.2) - (s.2 * e1.1))) + (d.1 * ((s.2 * e1.0) - (s.0 * e1.2)))) + (d.2 * ((s.0 * e1.1) - (s.1 * e1.0)))) * e2.0)));
    assert((e1.0 * ((d.1 * e2.2) - (d.2 * e2.1))) == ((d.1 * e1.0 * e2.2) + ((-1) * (d.2 * e1.0 * e2.1)))) by {
        assert(e1.0 * (d.1 * e2.2) == (d.1 * e1.0 * e2.2)) by (nonlinear_arith);
        assert(e1.0 * ((-1) * (d.2 * e2.1)) == ((-1) * (d.2 * e1.0 * e2.1))) by (nonlinear_arith);
        lemma_mul_sums_1_2(e1.0, (d.1 * e2.2), ((-1) * (d.2 * e2.1)));
    }
    assert((e1.1 * ((d.2 * e2.0) - (d.0 * e2.2))) == (((-1) * (d.0 * e1.1 * e2.2)) + (d.2 * e1.1 * e2.0))) by {
        assert(e1.1 * ((-1) * (d.0 * e2.2)) == ((-1) * (d.0 * e1.1 * e2.2))) by (nonlinear_arith);
        assert(e1.1 * (d.2 * e2.0) == (d.2 * e1.1 * e2.0)) by (nonlinear_arith);
        lemma_mul_sums_1_2(e1.1, ((-1) * (d.0 * e2.2)), (d.2 * e2.0));
    }
    assert((e1.2 * ((d.0 * e2.1) - (d.1 * e2.0))) == ((d.0 * e1.2 * e2.1) + ((-1) * (d.1 * e1.2 * e2.0)))) by {
        assert(e1.2 * (d.0 * e2.1) == (d.0 * e1.2 * e2.1)) by (nonlinear_arith);
        assert(e1.2 * ((-1) * (d.1 * e2.0)) == ((-1) * (d.1 * e1.2 * e2.0))) by (nonlinear_arith);
        lemma_mul_sums_1_2(e1.2, (d.0 * e2.1), ((-1) * (d.1 * e2.0)));
    }
    assert(((((e1.0 * ((d.1 * e2.2) - (d.2 * e2.1))) + (e1.1 * ((d.2 * e2.0) - (d.0 * e2.2)))) + (e1.2 * ((d.0 * e2.1) - (d.1 * e2.0)))) * s.1) == (((-1) * (d.0 * e1.1 * e2.2 * s.1)) + (d.0 * e1.2 * e2.1 * s.1) + (d.1 * e1.0 * e2.2 * s.1) + ((-1) * (d.1 * e1.2 * e2.0 * s.1)) + ((-1) * (d.2 * e1.0 * e2.1 * s.1)) + (d.2 * e1.1 * e2.0 * s.1))) by {
        assert(((-1) * (d.0 * e1.1 * e2.2)) * s.1 == ((-1) * (d.0 * e1.1 * e2.2 * s.1))) by (nonlinear_arith);
        assert((d.0 * e1.2 * e2.1) * s.1 == (d.0 * e1.2 * e2.1 * s.1)) by (nonlinear_arith);
        assert((d.1 * e1.0 * e2.2) * s.1 == (d.1 * e1.0 * e2.2 * s.1)) by (nonlinear_arith);
        assert(((-1) * (d.1 * e1.2 * e2.0)) * s.1 == ((-1) * (d.1 * e1.2 * e2.0 * s.1))) by (nonlinear_arith);
        assert(((-1) * (d.2 * e1.0 * e2.1)) * s.1 == ((-1) * (d.2 * e1.0 * e2.1 * s.1))) by (nonlinear_arith);
        assert((d.2 * e1.1 * e2.0) * s.1 == (d.2 * e1.1 * e2.0 * s.1)) by (nonlinear_arith);
        lemma_mul_sums_6_1(((-1) * (d.0 * e1.1 * e2.2)), (d.0 * e1.2 * e2.1), (d.1 * e1.0 * e2.2), ((-1) * (d.1 * e1.2 * e2.0)), ((-1) * (d.2 * e1.0 * e2.1)), (d.2 * e1.1 * e2.0), s.1);
    }
    assert((s.1 * e1.2) == (e1.2 * s.1)) by (nonlinear_arith);
    assert((s.2 * e1.1) == (e1.1 * s.2)) by (nonlinear_arith);
    assert((e2.0 * ((s.1 * e1.2) - (s.2 * e1.1))) == (((-1) * (e1.1 * e2.0 * s.2)) + (e1.2 * e2.0 * s.1))) by {
        assert(e2.0 * ((-1) * (e1.1 * s.2)) == ((-1) * (e1.1 * e2.0 * s.2))) by (nonlinear_arith);
        assert(e2.0 * (e1.2 * s.1) == (e1.2 * e2.0 * s.1)) by (nonlinear_arith);
        lemma_mul_sums_1_2(e2.0, ((-1) * (e1.1 * s.2)), (e1.2 * s.1));
    }
    assert((s.2 * e1.0) == (e1.0 * s.2)) by (nonlinear_arith);
    assert((s.0 * e1.2) == (e1.2 * s.0)) by (nonlinear_arith);
    assert((e2.1 * ((s.2 * e1.0) - (s.0 * e1.2))) == ((e1.0 * e2.1 * s.2) + ((-1) * (e1.2 * e2.1 * s.0)))) by {
        assert(e2.1 * (e1.0 * s.2) == (e1.0 * e2.1 * s.2)) by (nonlinear_arith);
        assert(e2.1 * ((-1) * (e1.2 * s.0)) == ((-1) * (e1.2 * e2.1 * s.0))) by (nonlinear_arith);
        lemma_mul_sums_1_2(e2.1, (e1.0 * s.2), ((-1) * (e1.2 * s.0)));
    }
    assert((s.0 * e1.1) == (e1.1 * s.0)) by (nonlinear_arith);
    assert((s.1 * e1.0) == (e1.0 * s.1)) by (nonlinear_arith);
    assert((e2.2 * ((s.0 * e1.1) - (s.1 * e1.0))) == (((-1) * (e1.0 * e2.2 * s.1)) + (e1.1 * e2.2 * s.0))) by {
        assert(e2.2 * ((-1) * (e1.0 * s.1)) == ((-1) * (e1.0 * e2.2 * s.1))) by (nonlinear_arith);
        assert(e2.2 * (e1.1 * s.0) == (e1.1 * e2.2 * s.0)) by (nonlinear_arith);
        lemma_mul_sums_1_2(e2.2, ((-1) * (e1.0 * s.1)), (e1.1 * s.0));
    }
    assert(((((e2.0 * ((s.1 * e1.2) - (s.2 * e1.1))) + (e2.1 * ((s.2 * e1.0) - (s.0 * e1.2)))) + (e2.2 * ((s.0 * e1.1) - (s.1 * e1.0)))) * d.1) == ((d.1 * e1.0 * e2.1 * s.2) + ((-1) * (d.1 * e1.0 * e2.2 * s.1)) + ((-1) * (d.1 * e1.1 * e2.0 * s.2)) + (d.1 * e1.1 * e2.2 * s.0) + (d.1 * e1.2 * e2.0 * s.1) + ((-1) * (d.1 * e1.2 * e2.1 * s.0)))) by {
        assert((e1.0 * e2.1 * s.2) * d.1 == (d.1 * e1.0 * e2.1 * s.2)) by (nonlinear_arith);
        assert(((-1) * (e1.0 * e2.2 * s.1)) * d.1 == ((-1) * (d.1 * e1.0 * e2.2 * s.1))) by (nonlinear_arith);
        assert(((-1) * (e1.1 * e2.0 * s.2)) * d.1 == ((-1) * (d.1 * e1.1 * e2.0 * s.2))) by (nonlinear_arith);
        assert((e1.1 * e2.2 * s.0) * d.1 == (d.1 * e1.1 * e2.2 * s.0)) by (nonlinear_arith);
        assert((e1.2 * e2.0 * s.1) * d.1 == (d.1 * e1.2 * e2.0 * s.1)) by (nonlinear_arith);
        assert(((-1) * (e1.2 * e2.1 * s.0)) * d.1 == ((-1) * (d.1 * e1.2 * e2.1 * s.0))) by (nonlinear_arith);
        lemma_mul_sums_6_1((e1.0 * e2.1 * s.2), ((-1) * (e1.0 * e2.2 * s.1)), ((-1) * (e1.1 * e2.0 * s.2)), (e1.1 * e2.2 * s.0), (e1.2 * e2.0 * s.1), ((-1) * (e1.2 * e2.1 * s.0)), d.1);
    }
    assert((s.0 * ((d.1 * e2.2) - (d.2 * e2.1))) == ((d.1 * e2.2 * s.0) + ((-1) * (d.2 * e2.1 * s.0)))) by {
        assert(s.0 * (d.1 * e2.2) == (d.1 * e2.2 * s.0)) by (nonlinear_arith);
        assert(s.0 * ((-1) * (d.2 * e2.1)) == ((-1) * (d.2 * e2.1 * s.0))) by (nonlinear_arith);
        lemma_mul_sums_1_2(s.0, (d.1 * e2.2), ((-1) * (d.2 * e2.1)));
    }
    assert((s.1 * ((d.2 * e2.0) - (d.0 * e2.2))) == (((-1) * (d.0 * e2.2 * s.1)) + (d.2 * e2.0 * s.1))) by {
        assert(s.1 * ((-1) * (d.0 * e2.2)) == ((-1) * (d.0 * e2.2 * s.1))) by (nonlinear_arith);
        assert(s.1 * (d.2 * e2.0) == (d.2 * e2.0 * s.1)) by (nonlinear_arith);
        lemma_mul_sums_1_2(s.1, ((-1) * (d.0 * e2.2)), (d.2 * e2.0));
    }
    assert((s.2 * ((d.0 * e2.1) - (d.1 * e2.0))) == ((d.0 * e2.1 * s.2) + ((-1) * (d.1 * e2.0 * s.2)))) by {
        assert(s.2 * (d.0 * e2.1) == (d.0 * e2.1 * s.2)) by (nonlinear_arith);
        assert(s.2 * ((-1) * (d.1 * e2.0)) == ((-1) * (d.1 * e2.0 * s.2))) by (nonlinear_arith);
        lemma_mul_sums_1_2(s.2, (d.0 * e2.1), ((-1) * (d.1 * e2.0)));
    }
    assert(((((s.0 * ((d.1 * e2.2) - (d.2 * e2.1))) + (s.1 * ((d.2 * e2.0) - (d.0 * e2.2)))) + (s.2 * ((d.0 * e2.1) - (d.1 * e2.0)))) * e1.1) == ((d.0 * e1.1 * e2.1 * s.2) + ((-1) * (d.0 * e1.1 * e2.2 * s.1)) + ((-1) * (d.1 * e1.1 * e2.0 * s.2)) + (d.1 * e1.1 * e2.2 * s.0) + (d.2 * e1.1 * e2.0 * s.1) + ((-1) * (d.2 * e1.1 * e2.1 * s.0)))) by {
        assert((d.0 * e2.1 * s.2) * e1.1 == (d.0 * e1.1 * e2.1 * s.2)) by (nonlinear_arith);
        assert(((-1) * (d.0 * e2.2 * s.1)) * e1.1 == ((-1) * (d.0 * e1.1 * e2.2 * s.1))) by (nonlinear_arith);
        assert(((-1) * (d.1 * e2.0 * s.2)) * e1.1 == ((-1) * (d.1 * e1.1 * e2.0 * s.2))) by (nonlinear_arith);
        assert((d.1 * e2.2 * s.0) * e1.1 == (d.1 * e1.1 * e2.2 * s.0)) by (nonlinear_arith);
        assert((d.2 * e2.0 * s.1) * e1.1 == (d.2 * e1.1 * e2.0 * s.1)) by (nonlinear_arith);
        assert(((-1) * (d.2 * e2.1 * s.0)) * e1.1 == ((-1) * (d.2 * e1.1 * e2.1 * s.0))) by (nonlinear_arith);
        lemma_mul_sums_6_1((d.0 * e2.1 * s.2), ((-1) * (d.0 * e2.2 * s.1)), ((-1) * (d.1 * e2.0 * s.2)), (d.1 * e2.2 * s.0), (d.2 * e2.0 * s.1), ((-1) * (d.2 * e2.1 * s.0)), e1.1);
    }
    assert((s.1 * e1.2) == (e1.2 * s.1)) by (nonlinear_arith);
    assert((s.2 * e1.1) == (e1.1 * s.2)) by (nonlinear_arith);
    assert((d.0 * ((s.1 * e1.2) - (s.2 * e1.1))) == (((-1) * (d.0 * e1.1 * s.2)) + (d.0 * e1.2 * s.1))) by {
        assert(d.0 * ((-1) * (e1.1 * s.2)) == ((-1) * (d.0 * e1.1 * s.2))) by (nonlinear_arith);
        assert(d.0 * (e1.2 * s.1) == (d.0 * e1.2 * s.1)) by (nonlinear_arith);
        lemma_mul_sums_1_2(d.0, ((-1) * (e1.1 * s.2)), (e1.2 * s.1));
    }
    assert((s.2 * e1.0) == (e1.0 * s.2)) by (nonlinear_arith);
    assert((s.0 * e1.2) == (e1.2 * s.0)) by (nonlinear_arith);
    assert((d.1 * ((s.2 * e1.0) - (s.0 * e1.2))) == ((d.1 * e1.0 * s.2) + ((-1) * (d.1 * e1.2 * s.0)))) by {
        assert(d.1 * (e1.0 * s.2) == (d.1 * e1.0 * s.2)) by (nonlinear_arith);
        assert(d.1 * ((-1) * (e1.2 * s.0)) == ((-1) * (d.1 * e1.2 * s.0))) by (nonlinear_arith);
        lemma_mul_sums_1_2(d.1, (e1.0 * s.2), ((-1) * (e1.2 * s.0)));
    }
    assert((s.0 * e1.1) == (e1.1 * s.0)) by (nonlinear_arith);
    assert((s.1 * e1.0) == (e1.0 * s.1)) by (nonlinear_arith);
    assert((d.2 * ((s.0 * e1.1) - (s.1 * e1.0))) == (((-1) * (d.2 * e1.0 * s.1)) + (d.2 * e1.1 * s.0))) by {
        assert(d.2 * ((-1) * (e1.0 * s.1)) == ((-1) * (d.2 * e1.0 * s.1))) by (nonlinear_arith);
        assert(d.2 * (e1.1 * s.0) == (d.2 * e1.1 * s.0)) by (nonlinear_arith);
        lemma_mul_sums_1_2(d.2, ((-1) * (e1.0 * s.1)), (e1.1 * s.0));
    }
    assert(((((d.0 * ((s.1 * e1.2) - (s.2 * e1.1))) + (d.1 * ((s.2 * e1.0) - (s.0 * e1.2)))) + (d.2 * ((s.0 * e1.1) - (s.1 * e1.0)))) * e2.1) == (((-1) * (d.0 * e1.1 * e2.1 * s.2)) + (d.0 * e1.2 * e2.1 * s.1) + (d.1 * e1.0 * e2.1 * s.2) + ((-1) * (d.1 * e1.2 * e2.1 * s.0)) + ((-1) * (d.2 * e1.0 * e2.1 * s.1)) + (d.2 * e1.1 * e2.1 * s.0))) by {
        assert(((-1) * (d.0 * e1.1 * s.2)) * e2.1 == ((-1) * (d.0 * e1.1 * e2.1 * s.2))) by (nonlinear_arith);
        assert((d.0 * e1.2 * s.1) * e2.1 == (d.0 * e1.2 * e2.1 * s.1)) by (nonlinear_arith);
        assert((d.1 * e1.0 * s.2) * e2.1 == (d.1 * e1.0 * e2.1 * s.2)) by (nonlinear_arith);
        assert(((-1) * (d.1 * e1.2 * s.0)) * e2.1 == ((-1) * (d.1 * e1.2 * e2.1 * s.0))) by (nonlinear_arith);
        assert(((-1) * (d.2 * e1.0 * s.1)) * e2.1 == ((-1) * (d.2 * e1.0 * e2.1 * s.1))) by (nonlinear_arith);
        assert((d.2 * e1.1 * s.0) * e2.1 == (d.2 * e1.1 * e2.1 * s.0)) by (nonlinear_arith);
        lemma_mul_sums_6_1(((-1) * (d.0 * e1.1 * s.2)), (d.0 * e1.2 * s.1), (d.1 * e1.0 * s.2), ((-1) * (d.1 * e1.2 * s.0)), ((-1) * (d.2 * e1.0 * s.1)), (d.2 * e1.1 * s.0), e2.1);
    }
    assert((((((e1.0 * ((d.1 * e2.2) - (d.2 * e2.1))) + (e1.1 * ((d.2 * e2.0) - (d.0 * e2.2)))) + (e1.2 * ((d.0 * e2.1) - (d.1 * e2.0)))) * s.1) + ((((e2.0 * ((s.1 * e1.2) - (s.2 * e1.1))) + (e2.1 * ((s.2 * e1.0) - (s.0 * e1.2)))) + (e2.2 * ((s.0 * e1.1) - (s.1 * e1.0)))) * d.1)) == (((((s.0 * ((d.1 * e2.2) - (d.2 * e2.1))) + (s.1 * ((d.2 * e2.0) - (d.0 * e2.2)))) + (s.2 * ((d.0 * e2.1) - (d.1 * e2.0)))) * e1.1) + ((((d.0 * ((s.1 * e1.2) - (s.2 * e1.1))) + (d.1 * ((s.2 * e1.0) - (s.0 * e1.2)))) + (d.2 * ((s.0 * e1.1) - (s.1 * e1.0)))) * e2.1)));
    assert((e1.0 * ((d.1 * e2.2) - (d.2 * e2.1))) == ((d.1 * e1.0 * e2.2) + ((-1) * (d.2 * e1.0 * e2.1)))) by {
        assert(e1.0 * (d.1 * e2.2) == (d.1 * e1.0 * e2.2)) by (nonlinear_arith);
        assert(e1.0 * ((-1) * (d.2 * e2.1)) == ((-1) * (d.2 * e1.0 * e2.1))) by (nonlinear_arith);
        lemma_mul_sums_1_2(e1.0, (d.1 * e2.2), ((-1) * (d.2 * e2.1)));
    }
    assert((e1.1 * ((d.2 * e2.0) - (d.0 * e2.2))) == (((-1) * (d.0 * e1.1 * e2.2)) + (d.2 * e1.1 * e2.0))) by {
        assert(e1.1 * ((-1) * (d.0 * e2.2)) == ((-1) * (d.0 * e1.1 * e2.2))) by (nonlinear_arith);
        assert(e1.1 * (d.2 * e2.0) == (d.2 * e1.1 * e2.0)) by (nonlinear_arith);
        lemma_mul_sums_1_2(e1.1, ((-1) * (d.0 * e2.2)), (d.2 * e2.0));
    }
    assert((e1.2 * ((d.0 * e2.1) - (d.1 * e2.0))) == ((d.0 * e1.2 * e2.1) + ((-1) * (d.1 * e1.2 * e2.0)))) by {
        assert(e1.2 * (d.0 * e2.1) == (d.0 * e1.2 * e2.1)) by (nonlinear_arith);
        assert(e1.2 * ((-1) * (d.1 * e2.0)) == ((-1) * (d.1 * e1.2 * e2.0))) by (nonlinear_arith);
        lemma_mul_sums_1_2(e1.2, (d.0 * e2.1), ((-1) * (d.1 * e2.0)));
    }
    assert(((((e1.0 * ((d.1 * e2.2) - (d.2 * e2.1))) + (e1.1 * ((d.2 * e2.0) - (d.0 * e2.2)))) + (e1.2 * ((d.0 * e2.1) - (d.1 * e2.0)))) * s.2) == (((-1) * (d.0 * e1.1 * e2.2 * s.2)) + (d.0 * e1.2 * e2.1 * s.2) + (d.1 * e1.0 * e2.2 * s.2) + ((-1) * (d.1 * e1.2 * e2.0 * s.2)) + ((-1) * (d.2 * e1.0 * e2.1 * s.2)) + (d.2 * e1.1 * e2.0 * s.2))) by {
        assert(((-1) * (d.0 * e1.1 * e2.2)) * s.2 == ((-1) * (d.0 * e1.1 * e2.2 * s.2))) by (nonlinear_arith);
        assert((d.0 * e1.2 * e2.1) * s.2 == (d.0 * e1.2 * e2.1 * s.2)) by (nonlinear_arith);
        assert((d.1 * e1.0 * e2.2) * s.2 == (d.1 * e1.0 * e2.2 * s.2)) by (nonlinear_arith);
        assert(((-1) * (d.1 * e1.2 * e2.0)) * s.2 == ((-1) * (d.1 * e1.2 * e2.0 * s.2))) by (nonlinear_arith);
        assert(((-1) * (d.2 * e1.0 * e2.1)) * s.2 == ((-1) * (d.2 * e1.0 * e2.1 * s.2))) by (nonlinear_arith);
        assert((d.2 * e1.1 * e2.0) * s.2 == (d.2 * e1.1 * e2.0 * s.2)) by (nonlinear_arith);
        lemma_mul_sums_6_1(((-1) * (d.0 * e1.1 * e2.2)), (d.0 * e1.2 * e2.1), (d.1 * e1.0 * e2.2), ((-1) * (d.1 * e1.2 * e2.0)), ((-1) * (d.2 * e1.0 * e2.1)), (d.2 * e1.1 * e2.0), s.2);
    }
    assert((s.1 * e1.2) == (e1.2 * s.1)) by (nonlinear_arith);
    assert((s.2 * e1.1) == (e1.1 * s.2)) by (nonlinear_arith);
    assert((e2.0 * ((s.1 * e1.2) - (s.2 * e1.1))) == (((-1) * (e1.1 * e2.0 * s.2)) + (e1.2 * e2.0 * s.1))) by {
        assert(e2.0 * ((-1) * (e1.1 * s.2)) == ((-1) * (e1.1 * e2.0 * s.2))) by (nonlinear_arith);
        assert(e2.0 * (e1.2 * s.1) == (e1.2 * e2.0 * s.1)) by (nonlinear_arith);
        lemma_mul_sums_1_2(e2.0, ((-1) * (e1.1 * s.2)), (e1.2 * s.1));
    }
    assert((s.2 * e1.0) == (e1.0 * s.2)) by (nonlinear_arith);
    assert((s.0 * e1.2) == (e1.2 * s.0)) by (nonlinear_arith);
    assert((e2.1 * ((s.2 * e1.0) - (s.0 * e1.2))) == ((e1.0 * e2.1 * s.2) + ((-1) * (e1.2 * e2.1 * s.0)))) by {
        assert(e2.1 * (e1.0 * s.2) == (e1.0 * e2.1 * s.2)) by (nonlinear_arith);
        assert(e2.1 * ((-1) * (e1.2 * s.0)) == ((-1) * (e1.2 * e2.1 * s.0))) by (nonlinear_arith);
        lemma_mul_sums_1_2(e2.1, (e1.0 * s.2), ((-1) * (e1.2 * s.0)));
    }
    assert((s.0 * e1.1) == (e1.1 * s.0)) by (nonlinear_arith);
    assert((s.1 * e1.0) == (e1.0 * s.1)) by (nonlinear_arith);
    assert((e2.2 * ((s.0 * e1.1) - (s.1 * e1.0))) == (((-1) * (e1.0 * e2.2 * s.1)) + (e1.1 * e2.2 * s.0))) by {
        assert(e2.2 * ((-1) * (e1.0 * s.1)) == ((-1) * (e1.0 * e2.2 * s.1))) by (nonlinear_arith);
        assert(e2.2 * (e1.1 * s.0) == (e1.1 * e2.2 * s.0)) by (nonlinear_arith);
        lemma_mul_sums_1_2(e2.2, ((-1) * (e1.0 * s.1)), (e1.1 * s.0));
    }
    assert(((((e2.0 * ((s.1 * e1.2) - (s.2 * e1.1))) + (e2.1 * ((s.2 * e1.0) - (s.0 * e1.2)))) + (e2.2 * ((s.0 * e1.1) - (s.1 * e1.0)))) * d.2) == ((d.2 * e1.0 * e2.1 * s.2) + ((-1) * (d.2 * e1.0 * e2.2 * s.1)) + ((-1) * (d.2 * e1.1 * e2.0 * s.2)) + (d.2 * e1.1 * e2.2 * s.0) + (d.2 * e1.2 * e2.0 * s.1) + ((-1) * (d.2 * e1.2 * e2.1 * s.0)))) by {
        assert((e1.0 * e2.1 * s.2) * d.2 == (d.2 * e1.0 * e2.1 * s.2)) by (nonlinear_arith);
        assert(((-1) * (e1.0 * e2.2 * s.1)) * d.2 == ((-1) * (d.2 * e1.0 * e2.2 * s.1))) by (nonlinear_arith);
        assert(((-1) * (e1.1 * e2.0 * s.2)) * d.2 == ((-1) * (d.2 * e1.1 * e2.0 * s.2))) by (nonlinear_arith);
        assert((e1.1 * e2.2 * s.0) * d.2 == (d.2 * e1.1 * e2.2 * s.0)) by (nonlinear_arith);
        assert((e1.2 * e2.0 * s.1) * d.2 == (d.2 * e1.2 * e2.0 * s.1)) by (nonlinear_arith);
        assert(((-1) * (e1.2 * e2.1 * s.0)) * d.2 == ((-1) * (d.2 * e1.2 * e2.1 * s.0))) by (nonlinear_arith);
        lemma_mul_sums_6_1((e1.0 * e2.1 * s.2), ((-1) * (e1.0 * e2.2 * s.1)), ((-1) * (e1.1 * e2.0 * s.2)), (e1.1 * e2.2 * s.0), (e1.2 * e2.0 * s.1), ((-1) * (e1.2 * e2.1 * s.0)), d.2);
    }
    assert((s.0 * ((d.1 * e2.2) - (d.2 * e2.1))) == ((d.1 * e2.2 * s.0) + ((-1) * (d.2 * e2.1 * s.0)))) by {
        assert(s.0 * (d.1 * e2.2) == (d.1 * e2.2 * s.0)) by (nonlinear_arith);
        assert(s.0 * ((-1) * (d.2 * e2.1)) == ((-1) * (d.2 * e2.1 * s.0))) by (nonlinear_arith);
        lemma_mul_sums_1_2(s.0, (d.1 * e2.2), ((-1) * (d.2 * e2.1)));
    }
    assert((s.1 * ((d.2 * e2.0) - (d.0 * e2.2))) == (((-1) * (d.0 * e2.2 * s.1)) + (d.2 * e2.0 * s.1))) by {
        assert(s.1 * ((-1) * (d.0 * e2.2)) == ((-1) * (d.0 * e2.2 * s.1))) by (nonlinear_arith);
        assert(s.1 * (d.2 * e2.0) == (d.2 * e2.0 * s.1)) by (nonlinear_arith);
        lemma_mul_sums_1_2(s.1, ((-1) * (d.0 * e2.2)), (d.2 * e2.0));
    }
    assert((s.2 * ((d.0 * e2.1) - (d.1 * e2.0))) == ((d.0 * e2.1 * s.2) + ((-1) * (d.1 * e2.0 * s.2)))) by {
        assert(s.2 * (d.0 * e2.1) == (d.0 * e2.1 * s.2)) by (nonlinear_arith);
        assert(s.2 * ((-1) * (d.1 * e2.0)) == ((-1) * (d.1 * e2.0 * s.2))) by (nonlinear_arith);
        lemma_mul_sums_1_2(s.2, (d.0 * e2.1), ((-1) * (d.1 * e2.0)));
    }
    assert(((((s.0 * ((d.1 * e2.2) - (d.2 * e2.1))) + (s.1 * ((d.2 * e2.0) - (d.0 * e2.2)))) + (s.2 * ((d.0 * e2.1) - (d.1 * e2.0)))) * e1.2) == ((d.0 * e1.2 * e2.1 * s.2) + ((-1) * (d.0 * e1.2 * e2.2 * s.1)) + ((-1) * (d.1 * e1.2 * e2.0 * s.2)) + (d.1 * e1.2 * e2.2 * s.0) + (d.2 * e1.2 * e2.0 * s.1) + ((-1) * (d.2 * e1.2 * e2.1 * s.0)))) by {
        assert((d.0 * e2.1 * s.2) * e1.2 == (d.0 * e1.2 * e2.1 * s.2)) by (nonlinear_arith);
        assert(((-1) * (d.0 * e2.2 * s.1)) * e1.2 == ((-1) * (d.0 * e1.2 * e2.2 * s.1))) by (nonlinear_arith);
        assert(((-1) * (d.1 * e2.0 * s.2)) * e1.2 == ((-1) * (d.1 * e1.2 * e2.0 * s.2))) by (nonlinear_arith);
        assert((d.1 * e2.2 * s.0) * e1.2 == (d.1 * e1.2 * e2.2 * s.0)) by (nonlinear_arith);
        assert((d.2 * e2.0 * s.1) * e1.2 == (d.2 * e1.2 * e2.0 * s.1)) by (nonlinear_arith);
        assert(((-1) * (d.2 * e2.1 * s.0)) * e1.2 == ((-1) * (d.2 * e1.2 * e2.1 * s.0))) by (nonlinear_arith);
        lemma_mul_sums_6_1((d.0 * e2.1 * s.2), ((-1) * (d.0 * e2.2 * s.1)), ((-1) * (d.1 * e2.0 * s.2)), (d.1 * e2.2 * s.0), (d.2 * e2.0 * s.1), ((-1) * (d.2 * e2.1 * s.0)), e1.2);
    }
    assert((s.1 * e1.2) == (e1.2 * s.1)) by (nonlinear_arith);
    assert((s.2 * e1.1) == (e1.1 * s.2)) by (nonlinear_arith);
    assert((d.0 * ((s.1 * e1.2) - (s.2 * e1.1))) == (((-1) * (d.0 * e1.1 * s.2)) + (d.0 * e1.2 * s.1))) by {
        assert(d.0 * ((-1) * (e1.1 * s.2)) == ((-1) * (d.0 * e1.1 * s.2))) by (nonlinear_arith);
        assert(d.0 * (e1.2 * s.1) == (d.0 * e1.2 * s.1)) by (nonlinear_arith);
        lemma_mul_sums_1_2(d.0, ((-1) * (e1.1 * s.2)), (e1.2 * s.1));
    }
    assert((s.2 * e1.0) == (e1.0 * s.2)) by (nonlinear_arith);
    assert((s.0 * e1.2) == (e1.2 * s.0)) by (nonlinear_arith);
    assert((d.1 * ((s.2 * e1.0) - (s.0 * e1.2))) == ((d.1 * e1.0 * s.2) + ((-1) * (d.1 * e1.2 * s.0)))) by {
        assert(d.1 * (e1.0 * s.2) == (d.1 * e1.0 * s.2)) by (nonlinear_arith);
        assert(d.1 * ((-1) * (e1.2 * s.0)) == ((-1) * (d.1 * e1.2 * s.0))) by (nonlinear_arith);
        lemma_mul_sums_1_2(d.1, (e1.0 * s.2), ((-1) * (e1.2 * s.0)));
    }
    assert((s.0 * e1.1) == (e1.1 * s.0)) by (nonlinear_arith);
    assert((s.1 * e1.0) == (e1.0 * s.1)) by (nonlinear_arith);
    assert((d.2 * ((s.0 * e1.1) - (s.1 * e1.0))) == (((-1) * (d.2 * e1.0 * s.1)) + (d.2 * e1.1 * s.0))) by {
        assert(d.2 * ((-1) * (e1.0 * s.1)) == ((-1) * (d.2 * e1.0 * s.1))) by (nonlinear_arith);
        assert(d.2 * (e1.1 * s.0) == (d.2 * e1.1 * s.0)) by (nonlinear_arith);
        lemma_mul_sums_1_2(d.2, ((-1) * (e1.0 * s.1)), (e1.1 * s.0));
    }
    assert(((((d.0 * ((s.1 * e1.2) - (s.2 * e1.1))) + (d.1 * ((s.2 * e1.0) - (s.0 * e1.2)))) + (d.2 * ((s.0 * e1.1) - (s.1 * e1.0)))) * e2.2) == (((-1) * (d.0 * e1.1 * e2.2 * s.2)) + (d.0 * e1.2 * e2.2 * s.1) + (d.1 * e1.0 * e2.2 * s.2) + ((-1) * (d.1 * e1.2 * e2.2 * s.0)) + ((-1) * (d.2 * e1.0 * e2.2 * s.1)) + (d.2 * e1.1 * e2.2 * s.0))) by {
        assert(((-1) * (d.0 * e1.1 * s.2)) * e2.2 == ((-1) * (d.0 * e1.1 * e2.2 * s.2))) by (nonlinear_arith);
        assert((d.0 * e1.2 * s.1) * e2.2 == (d.0 * e1.2 * e2.2 * s.1)) by (nonlinear_arith);
        assert((d.1 * e1.0 * s.2) * e2.2 == (d.1 * e1.0 * e2.2 * s.2)) by (nonlinear_arith);
        assert(((-1) * (d.1 * e1.2 * s.0)) * e2.2 == ((-1) * (d.1 * e1.2 * e2.2 * s.0))) by (nonlinear_arith);
        assert(((-1) * (d.2 * e1.0 * s.1)) * e2.2 == ((-1) * (d.2 * e1.0 * e2.2 * s.1))) by (nonlinear_arith);
        assert((d.2 * e1.1 * s.0) * e2.2 == (d.2 * e1.1 * e2.2 * s.0)) by (nonlinear_arith);
        lemma_mul_sums_6_1(((-1) * (d.0 * e1.1 * s.2)), (d.0 * e1.2 * s.1), (d.1 * e1.0 * s.2), ((-1) * (d.1 * e1.2 * s.0)), ((-1) * (d.2 * e1.0 * s.1)), (d.2 * e1.1 * s.0), e2.2);
    }
    assert((((((e1.0 * ((d.1 * e2.2) - (d.2 * e2.1))) + (e1.1 * ((d.2 * e2.0) - (d.0 * e2.2)))) + (e1.2 * ((d.0 * e2.1) - (d.1 * e2.0)))) * s.2) + ((((e2.0 * ((s.1 * e1.2) - (s.2 * e1.1))) + (e2.1 * ((s.2 * e1.0) - (s.0 * e1.2)))) + (e2.2 * ((s.0 * e1.1) - (s.1 * e1.0)))) * d.2)) == (((((s.0 * ((d.1 * e2.2) - (d.2 * e2.1))) + (s.1 * ((d.2 * e2.0) - (d.0 * e2.2)))) + (s.2 * ((d.0 * e2.1) - (d.1 * e2.0)))) * e1.2) + ((((d.0 * ((s.1 * e1.2) - (s.2 * e1.1))) + (d.1 * ((s.2 * e1.0) - (s.0 * e1.2)))) + (d.2 * ((s.0 * e1.1) - (s.1 * e1.0)))) * e2.2)));
}

proof fn lemma_mul_sums_1_2(x0: int, y0: int, y1: int)
    ensures
        (x0) * (y0 + y1) == x0 * y0 + x0 * y1,
{
    assert((x0) * (y0 + y1) == x0 * y0 + x0 * y1) by (nonlinear_arith);
}

proof fn lemma_mul_sums_1_3(x0: int, y0: int, y1: int, y2: int)
    ensures
        (x0) * (y0 + y1 + y2) == x0 * y0 + x0 * y1 + x0 * y2,
{
    assert((x0) * (y0 + y1 + y2) == x0 * y0 + x0 * y1 + x0 * y2) by (nonlinear_arith);
}

proof fn lemma_mul_sums_2_1(x0: int, x1: int, y0: int)
    ensures
        (x0 + x1) * (y0) == x0 * y0 + x1 * y0,
{
    assert((x0 + x1) * (y0) == x0 * y0 + x1 * y0) by (nonlinear_arith);
}

proof fn lemma_mul_sums_6_1(x0: int, x1: int, x2: int, x3: int, x4: int, x5: int, y0: int)
    ensures
        (x0 + x1 + x2 + x3 + x4 + x5) * (y0) == x0 * y0 + x1 * y0 + x2 * y0 + x3 * y0 + x4 * y0 + x5 * y0,
{
    assert((x0 + x1 + x2 + x3 + x4 + x5) * (y0) == x0 * y0 + x1 * y0 + x2 * y0 + x3 * y0 + x4 * y0 + x5 * y0) by (nonlinear_arith);
}

} // verus!
