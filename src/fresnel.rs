//! Fresnel reflectance of a dielectric interface by Schlick's
//! approximation, in exact rational arithmetic.
use vstd::prelude::*;

verus! {

/// Largest refractive index, in fixed-point units.
pub const INDEX_LIMIT: u32 = 65536;

/// Largest denominator of a cosine.
pub const COS_DEN_LIMIT: u32 = 4096;

/// The fraction `num / den`, `den > 0`.
#[derive(Clone, Copy, Debug, PartialEq, Eq, Structural)]
pub struct Ratio {
    pub num: u128,
    pub den: u128,
}

pub open spec fn pow5(x: int) -> int {
    x * x * x * x * x
}

/// R0 = ((n1 - n2) / (n1 + n2))^2 as `(num, den)`.
pub open spec fn r0_spec(n1: int, n2: int) -> (int, int) {
    ((n1 - n2) * (n1 - n2), (n1 + n2) * (n1 + n2))
}

/// R = R0 + (1 - R0) (1 - cos)^5 for R0 = r0n / r0d and cos = cn / cd,
/// over the common denominator r0d * cd^5.
pub open spec fn schlick_spec(r0n: int, r0d: int, cn: int, cd: int) -> (int, int) {
    (r0n * pow5(cd) + (r0d - r0n) * pow5(cd - cn), r0d * pow5(cd))
}

/// Snell's law has no solution: eta^2 (1 - cos^2) > 1 with eta = n1 / n2.
pub open spec fn tir_spec(n1: int, n2: int, cn: int, cd: int) -> bool {
    n1 * n1 * (cd * cd - cn * cn) > n2 * n2 * (cd * cd)
}

proof fn lemma_pow5_bound(x: int)
    requires
        0 <= x <= 4096,
    ensures
        0 <= pow5(x) <= 1152921504606846976,
{
    assert(0 <= x * x <= 16777216) by (nonlinear_arith)
        requires
            0 <= x <= 4096,
    ;
    assert(0 <= x * x * x <= 68719476736) by (nonlinear_arith)
        requires
            0 <= x <= 4096,
            0 <= x * x <= 16777216,
    ;
    assert(0 <= x * x * x * x <= 281474976710656) by (nonlinear_arith)
        requires
            0 <= x <= 4096,
            0 <= x * x * x <= 68719476736,
    ;
    assert(0 <= x * x * x * x * x <= 1152921504606846976) by (nonlinear_arith)
        requires
            0 <= x <= 4096,
            0 <= x * x * x * x <= 281474976710656,
    ;
}

fn pow5_exec(x: u128) -> (r: u128)
    requires
        x <= 4096,
    ensures
        r == pow5(x as int),
        r <= 1152921504606846976,
{
    proof {
        lemma_pow5_bound(x as int);
        assert(x * x <= 16777216 && x * x * x <= 68719476736 && x * x * x * x <= 281474976710656)
            by (nonlinear_arith)
            requires
                x <= 4096,
        ;
    }
    let x2 = x * x;
    let x3 = x2 * x;
    let x4 = x3 * x;
    x4 * x
}

/// Reflectance at normal incidence between indices `n1` and `n2`:
/// ((n1 - n2) / (n1 + n2))^2, the same from either side.
pub fn reflectance_at_normal(n1: u32, n2: u32) -> (r: Ratio)
    requires
        0 < n1 <= INDEX_LIMIT,
        0 < n2 <= INDEX_LIMIT,
    ensures
        (r.num as int, r.den as int) == r0_spec(n1 as int, n2 as int),
        r.den > 0,
        r.num <= r.den <= 17179869184,
{
    let a = n1 as u128;
    let b = n2 as u128;
    let diff = if a >= b {
        a - b
    } else {
        b - a
    };
    assert(diff * diff == (n1 - n2) * (n1 - n2)) by (nonlinear_arith)
        requires
            diff == if a >= b {
                a - b
            } else {
                b - a
            },
            a == n1,
            b == n2,
    ;
    assert(diff * diff <= (a + b) * (a + b) <= 17179869184 && (a + b) * (a + b) > 0) by (nonlinear_arith)
        requires
            diff <= a + b,
            0 < a <= 65536,
            0 < b <= 65536,
    ;
    Ratio { num: diff * diff, den: (a + b) * (a + b) }
}

/// Schlick's reflectance for R0 = `r0` at an angle of cosine `cn / cd`.
pub fn schlick(r0: Ratio, cn: u32, cd: u32) -> (r: Ratio)
    requires
        0 < r0.den <= 17179869184,
        r0.num <= r0.den,
        0 < cd <= COS_DEN_LIMIT,
        cn <= cd,
    ensures
        (r.num as int, r.den as int) == schlick_spec(r0.num as int, r0.den as int, cn as int, cd as int),
        r.den > 0,
        r.num <= r.den,
        r.den <= 17179869184 * 1152921504606846976,
{
    let p = pow5_exec(cd as u128);
    let q = pow5_exec((cd - cn) as u128);
    proof {
        assert(pow5(cd - cn) <= pow5(cd as int)) by (nonlinear_arith)
            requires
                0 <= cd - cn <= cd,
        ;
        assert(0 < p) by (nonlinear_arith)
            requires
                p == pow5(cd as int),
                cd > 0,
        ;
        assert(r0.num * p + (r0.den - r0.num) * q <= r0.den * p) by (nonlinear_arith)
            requires
                q <= p,
                r0.num <= r0.den,
        ;
        assert(r0.den * p <= 17179869184 * 1152921504606846976) by (nonlinear_arith)
            requires
                r0.den <= 17179869184,
                p <= 1152921504606846976,
        ;
        assert(0 < r0.den * p) by (nonlinear_arith)
            requires
                0 < r0.den,
                0 < p,
        ;
        assert(r0.num * p <= r0.den * p) by (nonlinear_arith)
            requires
                r0.num <= r0.den,
                0 <= p,
        ;
        assert(0 <= (r0.den - r0.num) * q) by (nonlinear_arith)
            requires
                r0.num <= r0.den,
                0 <= q,
        ;
    }
    Ratio { num: r0.num * p + (r0.den - r0.num) * q, den: r0.den * p }
}

/// Whether a ray going from index `n1` into `n2` at cosine `cn / cd` to
/// the normal is totally reflected.
pub fn total_internal_reflection(n1: u32, n2: u32, cn: u32, cd: u32) -> (r: bool)
    requires
        0 < n1 <= INDEX_LIMIT,
        0 < n2 <= INDEX_LIMIT,
        0 < cd <= COS_DEN_LIMIT,
        cn <= cd,
    ensures
        r == tir_spec(n1 as int, n2 as int, cn as int, cd as int),
{
    let a = n1 as u128;
    let b = n2 as u128;
    let c = cn as u128;
    let d = cd as u128;
    proof {
        assert(c * c <= d * d <= 16777216) by (nonlinear_arith)
            requires
                c <= d <= 4096,
        ;
        assert(a * a <= 4294967296 && b * b <= 4294967296) by (nonlinear_arith)
            requires
                a <= 65536,
                b <= 65536,
        ;
        assert(a * a * (d * d - c * c) <= 4294967296 * 16777216) by (nonlinear_arith)
            requires
                a * a <= 4294967296,
                0 <= d * d - c * c <= 16777216,
        ;
        assert(b * b * (d * d) <= 4294967296 * 16777216) by (nonlinear_arith)
            requires
                b * b <= 4294967296,
                0 <= d * d <= 16777216,
        ;
    }
    a * a * (d * d - c * c) > b * b * (d * d)
}

/// The fraction of light a dielectric reflects: all of it under total
/// internal reflection, else Schlick's approximation with R0 of the two
/// indices.
pub fn reflected_fraction(n1: u32, n2: u32, cn: u32, cd: u32) -> (r: Ratio)
    requires
        0 < n1 <= INDEX_LIMIT,
        0 < n2 <= INDEX_LIMIT,
        0 < cd <= COS_DEN_LIMIT,
        cn <= cd,
    ensures
        tir_spec(n1 as int, n2 as int, cn as int, cd as int) ==> r == (Ratio { num: 1, den: 1 }),
        !tir_spec(n1 as int, n2 as int, cn as int, cd as int) ==> (r.num as int, r.den as int)
            == schlick_spec(r0_spec(n1 as int, n2 as int).0, r0_spec(n1 as int, n2 as int).1, cn as int, cd as int),
        r.den > 0,
        r.num <= r.den,
        r.den <= 17179869184 * 1152921504606846976,
{
    if total_internal_reflection(n1, n2, cn, cd) {
        Ratio { num: 1, den: 1 }
    } else {
        schlick(reflectance_at_normal(n1, n2), cn, cd)
    }
}

/// At normal incidence Schlick's reflectance is exactly R0.
pub proof fn lemma_schlick_normal_incidence(r0n: int, r0d: int, cd: int)
    requires
        r0d > 0,
        cd > 0,
    ensures
        schlick_spec(r0n, r0d, cd, cd).0 * r0d == r0n * schlick_spec(r0n, r0d, cd, cd).1,
{
    let p = pow5(cd);
    assert(pow5(cd - cd) == 0);
    assert((r0d - r0n) * pow5(cd - cd) == 0);
    assert(schlick_spec(r0n, r0d, cd, cd) == (r0n * p, r0d * p));
    assert(r0n * p * r0d == r0n * (r0d * p)) by (nonlinear_arith);
}

/// R0 does not depend on the side from which light arrives.
pub proof fn lemma_r0_symmetric(n1: int, n2: int)
    ensures
        r0_spec(n1, n2) == r0_spec(n2, n1),
{
    assert((n1 - n2) * (n1 - n2) == (n2 - n1) * (n2 - n1)) by (nonlinear_arith);
    assert((n1 + n2) * (n1 + n2) == (n2 + n1) * (n2 + n1)) by (nonlinear_arith);
}

} // verus!
