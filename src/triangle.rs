//! Ray-triangle intersection by the Moller-Trumbore method, in exact arithmetic.
use vstd::prelude::*;
use crate::algebra::{lemma_cramer, lemma_cross_orthogonal, lemma_dot_linear, lemma_triple_cyclic};
use crate::material::Material;
use crate::ray::Ray;
use crate::vector::{
    COORD_LIMIT, Point, V3, Wide, abs, bounded, cross, dot, vadd, vscale, vsub, wcross, wdot, wsub,
};

verus! {

/// Bound on every quantity of a triangle hit: 48 * COORD_LIMIT^3.
pub const TRI_BOUND: i128 = 13510798882111488;

/// A triangle with per-vertex shading normals.
#[derive(Clone, Copy, Debug, PartialEq, Eq, Structural)]
pub struct Triangle {
    pub p0: Point,
    pub p1: Point,
    pub p2: Point,
    pub n0: Point,
    pub n1: Point,
    pub n2: Point,
    pub material: Material,
}

/// A hit at parameter `t / den`, with barycentric weights `u / den` on `p1`
/// and `v / den` on `p2`; `den > 0`.
#[derive(Clone, Copy, Debug, PartialEq, Eq, Structural)]
pub struct TriangleHit {
    pub t: i128,
    pub u: i128,
    pub v: i128,
    pub den: i128,
}

impl View for TriangleHit {
    type V = (int, int, int, int);

    open spec fn view(&self) -> (int, int, int, int) {
        (self.t as int, self.u as int, self.v as int, self.den as int)
    }
}

/// x >= 0 and 0 < k, 0 < d, k * y == x * d give y >= 0 (and y > 0 for x > 0).
proof fn lemma_ratio_sign(k: int, y: int, x: int, d: int)
    requires
        k > 0,
        d > 0,
        k * y == x * d,
    ensures
        x >= 0 ==> y >= 0,
        x > 0 ==> y > 0,
        y >= 0 ==> x >= 0,
{
    if x >= 0 {
        assert(x * d >= 0) by (nonlinear_arith)
            requires
                x >= 0,
                d > 0,
        ;
        assert(y >= 0) by (nonlinear_arith)
            requires
                k > 0,
                k * y >= 0,
        ;
    }
    if x > 0 {
        assert(x * d > 0) by (nonlinear_arith)
            requires
                x > 0,
                d > 0,
        ;
        assert(y > 0) by (nonlinear_arith)
            requires
                k > 0,
                k * y > 0,
        ;
    }
    if y >= 0 {
        assert(k * y >= 0) by (nonlinear_arith)
            requires
                y >= 0,
                k > 0,
        ;
        assert(x >= 0) by (nonlinear_arith)
            requires
                d > 0,
                x * d >= 0,
        ;
    }
}

/// Negating all four coefficients keeps a linear relation.
proof fn lemma_negate_relation(a: int, b: int, c: int, d: int, w: int, x: int, y: int, z: int)
    requires
        a * w + b * x == c * y + d * z,
    ensures
        (-a) * w + (-b) * x == (-c) * y + (-d) * z,
{
    assert((-a) * w + (-b) * x == (-c) * y + (-d) * z) by (nonlinear_arith)
        requires
            a * w + b * x == c * y + d * z,
    ;
}

/// From k * a == ka * d and k * b == kb * d: a + b <= d iff ka + kb <= k.
proof fn lemma_ratio_sum(k: int, a: int, b: int, ka: int, kb: int, d: int)
    requires
        k > 0,
        d > 0,
        k * a == ka * d,
        k * b == kb * d,
    ensures
        (a + b <= d) == (ka + kb <= k),
{
    assert(k * (a + b) == (ka + kb) * d) by (nonlinear_arith)
        requires
            k * a == ka * d,
            k * b == kb * d,
    ;
    if a + b <= d {
        assert(k * (a + b) <= k * d) by (nonlinear_arith)
            requires
                k > 0,
                a + b <= d,
        ;
        assert(ka + kb <= k) by (nonlinear_arith)
            requires
                d > 0,
                (ka + kb) * d <= k * d,
        ;
    }
    if ka + kb <= k {
        assert((ka + kb) * d <= k * d) by (nonlinear_arith)
            requires
                d > 0,
                ka + kb <= k,
        ;
        assert(a + b <= d) by (nonlinear_arith)
            requires
                k > 0,
                k * (a + b) <= k * d,
        ;
    }
}

impl Triangle {
    pub open spec fn wf(&self) -> bool {
        self.p0.wf() && self.p1.wf() && self.p2.wf()
    }

    pub open spec fn edge1(&self) -> V3 {
        vsub(self.p1@, self.p0@)
    }

    pub open spec fn edge2(&self) -> V3 {
        vsub(self.p2@, self.p0@)
    }

    /// The determinant `e1 . (d x e2)` of the Moller-Trumbore system.
    pub open spec fn det(&self, ray: Ray) -> int {
        dot(self.edge1(), cross(ray.direction@, self.edge2()))
    }

    /// Sign that makes the determinant positive.
    pub open spec fn orient(&self, ray: Ray) -> int {
        if self.det(ray) < 0 {
            -1
        } else {
            1
        }
    }

    pub open spec fn raw_t(&self, ray: Ray) -> int {
        let s = vsub(ray.origin@, self.p0@);
        dot(self.edge2(), cross(s, self.edge1()))
    }

    pub open spec fn raw_u(&self, ray: Ray) -> int {
        let s = vsub(ray.origin@, self.p0@);
        dot(s, cross(ray.direction@, self.edge2()))
    }

    pub open spec fn raw_v(&self, ray: Ray) -> int {
        let s = vsub(ray.origin@, self.p0@);
        dot(ray.direction@, cross(s, self.edge1()))
    }

    /// Whether this triangle can be hit by this ray at all: the ray is not
    /// parallel to its plane, and an opaque triangle is not seen from behind.
    pub open spec fn faces(&self, ray: Ray) -> bool {
        self.det(ray) != 0 && !(self.material.culls_backfaces() && self.det(ray) < 0)
    }

    /// The hit `(t, u, v, den)`, if any, with `den = |det|`.
    pub open spec fn hit(&self, ray: Ray) -> Option<(int, int, int, int)> {
        let g = self.orient(ray);
        let den = g * self.det(ray);
        let t = g * self.raw_t(ray);
        let u = g * self.raw_u(ray);
        let v = g * self.raw_v(ray);
        if self.faces(ray) && u >= 0 && v >= 0 && u + v <= den && t > 0 {
            Some((t, u, v, den))
        } else {
            None
        }
    }

    /// The ray meets the triangle at parameter `tk / k`, at the point with
    /// barycentric weights `uk / k` on `p1` and `vk / k` on `p2`:
    /// `k * origin + tk * direction == k * p0 + uk * e1 + vk * e2`.
    pub open spec fn meets_at(&self, ray: Ray, k: int, tk: int, uk: int, vk: int) -> bool {
        let s = vsub(ray.origin@, self.p0@);
        k > 0 && tk > 0 && uk >= 0 && vk >= 0 && uk + vk <= k && vadd(
            vscale(k, s),
            vscale(tk, ray.direction@),
        ) == vadd(vscale(uk, self.edge1()), vscale(vk, self.edge2()))
    }

    /// A hit lies ahead of the origin, over a positive denominator.
    pub proof fn lemma_hit_positive(&self, ray: Ray)
        ensures
            self.hit(ray) matches Some(h) ==> h.0 > 0 && h.3 > 0,
    {
        if self.hit(ray) is Some {
            assert(self.orient(ray) * self.det(ray) > 0) by (nonlinear_arith)
                requires
                    self.det(ray) != 0,
                    self.orient(ray) == if self.det(ray) < 0 {
                        -1int
                    } else {
                        1int
                    },
            ;
        }
    }

    /// The reported hit, if any, solves the barycentric system.
    pub open spec fn hit_is_solution(&self, ray: Ray) -> bool {
        match self.hit(ray) {
            Some(h) => self.meets_at(ray, h.3, h.0, h.1, h.2),
            None => true,
        }
    }

    /// Any solution of the barycentric system is a multiple of the
    /// Moller-Trumbore quantities.
    pub proof fn lemma_solution_unique(&self, ray: Ray, k: int, tk: int, uk: int, vk: int)
        requires
            self.meets_at(ray, k, tk, uk, vk),
        ensures
            k * self.raw_u(ray) == uk * self.det(ray),
            k * self.raw_v(ray) == vk * self.det(ray),
            k * self.raw_t(ray) == tk * self.det(ray),
    {
        let s = vsub(ray.origin@, self.p0@);
        let d = ray.direction@;
        let e1 = self.edge1();
        let e2 = self.edge2();
        let lhs = vadd(vscale(k, s), vscale(tk, d));
        let rhs = vadd(vscale(uk, e1), vscale(vk, e2));
        let p = cross(d, e2);
        lemma_dot_linear(k, s, tk, d, p);
        lemma_dot_linear(uk, e1, vk, e2, p);
        lemma_cross_orthogonal(d, e2);
        assert(dot(lhs, p) == dot(rhs, p));
        assert(tk * dot(d, p) == 0);
        assert(vk * dot(e2, p) == 0);
        let x = cross(e1, d);
        lemma_dot_linear(k, s, tk, d, x);
        lemma_dot_linear(uk, e1, vk, e2, x);
        lemma_cross_orthogonal(e1, d);
        lemma_triple_cyclic(s, e1, d);
        lemma_triple_cyclic(e1, d, e2);
        lemma_triple_cyclic(e2, e1, d);
        assert(dot(lhs, x) == dot(rhs, x));
        assert(tk * dot(d, x) == 0);
        assert(uk * dot(e1, x) == 0);
        let y = cross(e1, e2);
        lemma_dot_linear(k, s, tk, d, y);
        lemma_dot_linear(uk, e1, vk, e2, y);
        lemma_cross_orthogonal(e1, e2);
        lemma_triple_cyclic(s, e1, e2);
        lemma_triple_cyclic(d, e1, e2);
        lemma_triple_cyclic(e1, e2, d);
        assert(dot(lhs, y) == dot(rhs, y));
        assert(uk * dot(e1, y) == 0);
        assert(vk * dot(e2, y) == 0);
        assert(tk * dot(d, y) == -(tk * self.det(ray))) by (nonlinear_arith)
            requires
                dot(d, y) == -self.det(ray),
        ;
    }

    /// The Moller-Trumbore quantities solve the barycentric system.
    pub proof fn lemma_hit_solves(&self, ray: Ray)
        requires
            self.hit(ray) is Some,
        ensures
            self.hit_is_solution(ray),
    {
        let s = vsub(ray.origin@, self.p0@);
        let d = ray.direction@;
        let e1 = self.edge1();
        let e2 = self.edge2();
        lemma_cramer(s, d, e1, e2);
        let h = self.hit(ray).unwrap();
        let g = self.orient(ray);
        let lhs = vadd(vscale(h.3, s), vscale(h.0, d));
        let rhs = vadd(vscale(h.1, e1), vscale(h.2, e2));
        let det = self.det(ray);
        let rt = self.raw_t(ray);
        let ru = self.raw_u(ray);
        let rv = self.raw_v(ray);
        if det < 0 {
            lemma_negate_relation(det, rt, ru, rv, s.0, d.0, e1.0, e2.0);
            lemma_negate_relation(det, rt, ru, rv, s.1, d.1, e1.1, e2.1);
            lemma_negate_relation(det, rt, ru, rv, s.2, d.2, e1.2, e2.2);
        }
        assert(lhs == rhs);
    }

    /// The exact result agrees with the barycentric definition of a hit: a
    /// triangle that faces the ray is hit iff some point of it lies on the
    /// ray ahead of the origin, and then at the reported parameter and weights.
    pub proof fn lemma_hit_iff_barycentric(&self, ray: Ray, k: int, tk: int, uk: int, vk: int)
        ensures
            self.hit(ray) is Some ==> self.hit_is_solution(ray),
            self.faces(ray) && self.meets_at(ray, k, tk, uk, vk) ==> self.hit(ray) is Some,
            self.meets_at(ray, k, tk, uk, vk) && self.hit(ray) is Some ==> {
                let h = self.hit(ray).unwrap();
                k * h.0 == tk * h.3 && k * h.1 == uk * h.3 && k * h.2 == vk * h.3
            },
    {
        if self.hit(ray) is Some {
            self.lemma_hit_solves(ray);
        }
        if self.meets_at(ray, k, tk, uk, vk) && self.faces(ray) {
            self.lemma_solution_unique(ray, k, tk, uk, vk);
            let g = self.orient(ray);
            let det = self.det(ray);
            let den = g * det;
            let t = g * self.raw_t(ray);
            let u = g * self.raw_u(ray);
            let v = g * self.raw_v(ray);
            assert(k * u == uk * den && k * v == vk * den && k * t == tk * den) by (nonlinear_arith)
                requires
                    k * self.raw_u(ray) == uk * det,
                    k * self.raw_v(ray) == vk * det,
                    k * self.raw_t(ray) == tk * det,
                    den == g * det,
                    t == g * self.raw_t(ray),
                    u == g * self.raw_u(ray),
                    v == g * self.raw_v(ray),
            ;
            lemma_ratio_sign(k, u, uk, den);
            lemma_ratio_sign(k, v, vk, den);
            lemma_ratio_sign(k, t, tk, den);
            lemma_ratio_sum(k, u, v, uk, vk, den);
        }
    }
}

impl Triangle {
    /// Intersects the ray with the triangle (Moller-Trumbore), exactly.
    /// Parallel rays and, for opaque materials, back faces give no hit.
    pub fn intersect(&self, ray: &Ray) -> (r: Option<TriangleHit>)
        requires
            self.wf(),
            ray.wf(),
        ensures
            r is None <==> self.hit(*ray) is None,
            r matches Some(h) ==> self.hit(*ray) == Some(h@),
            r matches Some(h) ==> h.den > 0 && 0 < h.t <= TRI_BOUND && h.den <= TRI_BOUND,
    {
        let l = Ghost(65536int);
        let l2 = Ghost(131072int);
        let l8 = Ghost(34359738368int);
        let p0 = self.p0.widen();
        let e1 = wsub(self.p1.widen(), p0, l);
        let e2 = wsub(self.p2.widen(), p0, l);
        let s = wsub(ray.origin.widen(), p0, l);
        let d = ray.direction.widen();
        let pv = wcross(d, e2, l2, l2);
        let det = wdot(e1, pv, l2, l8);
        let opaque = self.material.is_opaque();
        if det == 0 || (opaque && det < 0) {
            return None;
        }
        let q = wcross(s, e1, l2, l2);
        let mut u = wdot(s, pv, l2, l8);
        let mut v = wdot(d, q, l2, l8);
        let mut t = wdot(e2, q, l2, l8);
        let mut den = det;
        if det < 0 {
            u = -u;
            v = -v;
            t = -t;
            den = -det;
        }
        proof {
            let g = self.orient(*ray);
            assert(g == 1 || g == -1);
            assert(den == g * self.det(*ray));
            assert(t == g * self.raw_t(*ray));
            assert(u == g * self.raw_u(*ray));
            assert(v == g * self.raw_v(*ray));
        }
        if u >= 0 && v >= 0 && u + v <= den && t > 0 {
            Some(TriangleHit { t, u, v, den })
        } else {
            None
        }
    }
}

} // verus!
