//! Axis-aligned boxes and the exact slab test.
use vstd::prelude::*;
use crate::distance::{frac_le, lemma_frac_le_total, lemma_frac_le_trans};
use crate::ray::Ray;
use crate::vector::{Point, V3, lemma_mul_abs_bound, vscale};

verus! {

/// The box of points between `min` and `max`, per coordinate.
#[derive(Clone, Copy, Debug, PartialEq, Eq, Structural)]
pub struct Aabb {
    pub min: Point,
    pub max: Point,
}

/// lo <= p <= hi in every coordinate.
pub open spec fn between(lo: V3, p: V3, hi: V3) -> bool {
    lo.0 <= p.0 <= hi.0 && lo.1 <= p.1 <= hi.1 && lo.2 <= p.2 <= hi.2
}

/// One coordinate of the ray at parameter tk / k lies in [mn, mx].
pub open spec fn axis_ok(k: int, tk: int, o: int, d: int, mn: int, mx: int) -> bool {
    k * mn <= k * o + tk * d <= k * mx
}

/// The set of parameters t = tk / k > 0 still possible after some axes:
/// empty unless `ok`; else at least `lo_n / lo_d` and, if `capped`, at most
/// `up_n / up_d`.
#[derive(Clone, Copy, Debug)]
struct Slab {
    ok: bool,
    capped: bool,
    lo_n: i64,
    lo_d: i64,
    up_n: i64,
    up_d: i64,
}

const SLAB_NUM_BOUND: i64 = 131072;

impl Slab {
    spec fn wf(&self) -> bool {
        &&& 0 <= self.lo_n <= SLAB_NUM_BOUND
        &&& 0 < self.lo_d <= SLAB_NUM_BOUND
        &&& -SLAB_NUM_BOUND <= self.up_n <= SLAB_NUM_BOUND
        &&& 0 < self.up_d <= SLAB_NUM_BOUND
    }

    spec fn admits(&self, k: int, tk: int) -> bool {
        &&& self.ok
        &&& frac_le(self.lo_n as int, self.lo_d as int, tk, k)
        &&& self.capped ==> frac_le(tk, k, self.up_n as int, self.up_d as int)
    }
}

/// The larger of two lower bounds admits exactly what both admit.
proof fn lemma_max_lower(an: int, ad: int, bn: int, bd: int, tk: int, k: int)
    requires
        ad > 0,
        bd > 0,
        k > 0,
    ensures
        frac_le(an, ad, bn, bd) ==> (frac_le(bn, bd, tk, k) <==> (frac_le(an, ad, tk, k)
            && frac_le(bn, bd, tk, k))),
        !frac_le(an, ad, bn, bd) ==> (frac_le(an, ad, tk, k) <==> (frac_le(an, ad, tk, k)
            && frac_le(bn, bd, tk, k))),
{
    lemma_frac_le_total(an, ad, bn, bd);
    if frac_le(bn, bd, tk, k) && frac_le(an, ad, bn, bd) {
        lemma_frac_le_trans(an, ad, bn, bd, tk, k);
    }
    if frac_le(an, ad, tk, k) && !frac_le(an, ad, bn, bd) {
        lemma_frac_le_trans(bn, bd, an, ad, tk, k);
    }
}

/// The smaller of two upper bounds admits exactly what both admit.
proof fn lemma_min_upper(an: int, ad: int, bn: int, bd: int, tk: int, k: int)
    requires
        ad > 0,
        bd > 0,
        k > 0,
    ensures
        frac_le(bn, bd, an, ad) ==> (frac_le(tk, k, bn, bd) <==> (frac_le(tk, k, an, ad)
            && frac_le(tk, k, bn, bd))),
        !frac_le(bn, bd, an, ad) ==> (frac_le(tk, k, an, ad) <==> (frac_le(tk, k, an, ad)
            && frac_le(tk, k, bn, bd))),
{
    lemma_frac_le_total(an, ad, bn, bd);
    if frac_le(tk, k, bn, bd) && frac_le(bn, bd, an, ad) {
        lemma_frac_le_trans(tk, k, bn, bd, an, ad);
    }
    if frac_le(tk, k, an, ad) && !frac_le(bn, bd, an, ad) {
        lemma_frac_le_trans(tk, k, an, ad, bn, bd);
    }
}

/// Along one axis the admissible parameters form an interval.
proof fn lemma_axis_interval(k: int, tk: int, o: int, d: int, mn: int, mx: int)
    requires
        k > 0,
    ensures
        d == 0 ==> (axis_ok(k, tk, o, d, mn, mx) <==> mn <= o <= mx),
        d > 0 ==> (axis_ok(k, tk, o, d, mn, mx) <==> (frac_le(mn - o, d, tk, k) && frac_le(
            tk,
            k,
            mx - o,
            d,
        ))),
        d < 0 ==> (axis_ok(k, tk, o, d, mn, mx) <==> (frac_le(o - mx, -d, tk, k) && frac_le(
            tk,
            k,
            o - mn,
            -d,
        ))),
{
    assert(k * mn <= k * o <==> mn <= o) by (nonlinear_arith)
        requires
            k > 0,
    ;
    assert(k * o <= k * mx <==> o <= mx) by (nonlinear_arith)
        requires
            k > 0,
    ;
    assert(tk * 0 == 0);
    assert((mn - o) * k == k * mn - k * o) by (nonlinear_arith);
    assert((mx - o) * k == k * mx - k * o) by (nonlinear_arith);
    assert((o - mx) * k == k * o - k * mx) by (nonlinear_arith);
    assert((o - mn) * k == k * o - k * mn) by (nonlinear_arith);
    assert(tk * (-d) == -(tk * d)) by (nonlinear_arith);
}

/// Compares two fractions with small numerators and positive denominators.
fn small_frac_le(an: i64, ad: i64, bn: i64, bd: i64) -> (r: bool)
    requires
        -SLAB_NUM_BOUND <= an <= SLAB_NUM_BOUND,
        -SLAB_NUM_BOUND <= bn <= SLAB_NUM_BOUND,
        0 < ad <= SLAB_NUM_BOUND,
        0 < bd <= SLAB_NUM_BOUND,
    ensures
        r == frac_le(an as int, ad as int, bn as int, bd as int),
{
    proof {
        lemma_mul_abs_bound(an as int, bd as int, SLAB_NUM_BOUND as int, SLAB_NUM_BOUND as int);
        lemma_mul_abs_bound(bn as int, ad as int, SLAB_NUM_BOUND as int, SLAB_NUM_BOUND as int);
    }
    (an as i128) * (bd as i128) <= (bn as i128) * (ad as i128)
}

/// Narrows the slab by one axis.
fn slab_axis(st: Slab, o: i64, d: i64, mn: i64, mx: i64) -> (r: Slab)
    requires
        st.wf(),
        -65536 <= o <= 65536,
        -65536 <= d <= 65536,
        -65536 <= mn <= 65536,
        -65536 <= mx <= 65536,
    ensures
        r.wf(),
        forall|k: int, tk: int|
            k > 0 ==> (r.admits(k, tk) <==> (st.admits(k, tk) && axis_ok(k, tk, o as int, d as int, mn as int, mx as int))),
{
    if d == 0 {
        let r = Slab { ok: st.ok && mn <= o && o <= mx, ..st };
        proof {
            assert forall|k: int, tk: int| k > 0 implies (r.admits(k, tk) <==> (st.admits(k, tk)
                && axis_ok(k, tk, o as int, d as int, mn as int, mx as int))) by {
                lemma_axis_interval(k, tk, o as int, d as int, mn as int, mx as int);
            }
        }
        return r;
    }
    let (an, bn, den) = if d > 0 {
        (mn - o, mx - o, d)
    } else {
        (o - mx, o - mn, -d)
    };
    let raise = small_frac_le(st.lo_n, st.lo_d, an, den);
    let lower = raise && an >= 0;
    let lo_n = if lower { an } else { st.lo_n };
    let lo_d = if lower { den } else { st.lo_d };
    let cut = !st.capped || small_frac_le(bn, den, st.up_n, st.up_d);
    let up_n = if cut { bn } else { st.up_n };
    let up_d = if cut { den } else { st.up_d };
    let r = Slab { ok: st.ok, capped: true, lo_n, lo_d, up_n, up_d };
    proof {
        assert forall|k: int, tk: int| k > 0 implies (r.admits(k, tk) <==> (st.admits(k, tk)
            && axis_ok(k, tk, o as int, d as int, mn as int, mx as int))) by {
            lemma_axis_interval(k, tk, o as int, d as int, mn as int, mx as int);
            lemma_max_lower(st.lo_n as int, st.lo_d as int, an as int, den as int, tk, k);
            if an < 0 {
                lemma_frac_le_total(an as int, den as int, st.lo_n as int, st.lo_d as int);
                assert(an * st.lo_d < 0) by (nonlinear_arith)
                    requires
                        an < 0,
                        st.lo_d > 0,
                ;
                assert(st.lo_n * den >= 0) by (nonlinear_arith)
                    requires
                        st.lo_n >= 0,
                        den > 0,
                ;
            }
            if st.capped {
                lemma_min_upper(st.up_n as int, st.up_d as int, bn as int, den as int, tk, k);
            }
        }
    }
    r
}

impl Aabb {
    pub open spec fn wf(&self) -> bool {
        self.min.wf() && self.max.wf()
    }

    /// The ray at parameter tk / k > 0 is in the box.
    pub open spec fn reached_at(&self, ray: Ray, k: int, tk: int) -> bool {
        k > 0 && tk > 0 && between(vscale(k, self.min@), ray.scaled_point(k, tk), vscale(k, self.max@))
    }

    /// Some point of the ray ahead of its origin lies in the box.
    pub open spec fn reached(&self, ray: Ray) -> bool {
        exists|k: int, tk: int| self.reached_at(ray, k, tk)
    }

    /// Slab test: whether the ray enters the box ahead of its origin, exactly.
    pub fn is_hit(&self, ray: &Ray) -> (r: bool)
        requires
            self.wf(),
            ray.wf(),
        ensures
            r == self.reached(*ray),
    {
        let o = ray.origin;
        let d = ray.direction;
        let st = Slab { ok: true, capped: false, lo_n: 0, lo_d: 1, up_n: 0, up_d: 1 };
        let st = slab_axis(st, o.x, d.x, self.min.x, self.max.x);
        let st = slab_axis(st, o.y, d.y, self.min.y, self.max.y);
        let st = slab_axis(st, o.z, d.z, self.min.z, self.max.z);
        proof {
            assert forall|k: int, tk: int| #![auto] k > 0 && tk > 0 implies (self.reached_at(*ray, k, tk) <==> st.admits(k, tk)) by {
                assert(frac_le(0, 1, tk, k)) by (nonlinear_arith)
                    requires
                        tk > 0,
                        k > 0,
                ;
            }
        }
        let r = st.ok && (!st.capped || (small_frac_le(st.lo_n, st.lo_d, st.up_n, st.up_d)
            && st.up_n > 0));
        proof {
            if r {
                if st.capped {
                    assert(st.admits(st.up_d as int, st.up_n as int)) by (nonlinear_arith)
                        requires
                            st.ok,
                            st.capped,
                            st.lo_n * st.up_d <= st.up_n * st.lo_d,
                    ;
                    assert(self.reached_at(*ray, st.up_d as int, st.up_n as int));
                } else {
                    let tk = st.lo_n + st.lo_d;
                    assert(st.lo_n * st.lo_d <= tk * st.lo_d) by (nonlinear_arith)
                        requires
                            tk == st.lo_n + st.lo_d,
                            st.lo_d > 0,
                    ;
                    assert(st.admits(st.lo_d as int, tk));
                    assert(self.reached_at(*ray, st.lo_d as int, tk));
                }
            }
            if self.reached(*ray) {
                let (k, tk) = choose|k: int, tk: int| self.reached_at(*ray, k, tk);
                assert(st.admits(k, tk));
                if st.capped {
                    lemma_frac_le_trans(st.lo_n as int, st.lo_d as int, tk, k, st.up_n as int, st.up_d as int);
                    assert(st.up_n > 0) by (nonlinear_arith)
                        requires
                            tk * st.up_d <= st.up_n * k,
                            tk > 0,
                            k > 0,
                            st.up_d > 0,
                    ;
                }
            }
        }
        r
    }
}

} // verus!
