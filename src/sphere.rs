//! Ray-sphere intersection, exact up to an integer square root.
use vstd::prelude::*;
use crate::material::Material;
use crate::ray::Ray;
use crate::vector::{COORD_LIMIT, Point, abs, bounded, dot, vsub, wdot, wsub};

verus! {

/// A sphere; the radius is positive and within the coordinate limit.
#[derive(Clone, Copy, Debug, PartialEq, Eq, Structural)]
pub struct Sphere {
    pub center: Point,
    pub radius: i64,
    pub material: Material,
}

/// `r` is the integer square root of `n`.
pub open spec fn is_isqrt(n: int, r: int) -> bool {
    0 <= r && r * r <= n < (r + 1) * (r + 1)
}

/// The integer square root of a non-negative `n`.
pub open spec fn isqrt(n: int) -> int {
    choose|r: int| is_isqrt(n, r)
}

/// The square root of a non-negative `n`, rounded up.
pub open spec fn isqrt_up(n: int) -> int {
    if isqrt(n) * isqrt(n) == n {
        isqrt(n)
    } else {
        isqrt(n) + 1
    }
}

/// The integer square root is unique.
pub proof fn lemma_isqrt_unique(n: int, r1: int, r2: int)
    requires
        is_isqrt(n, r1),
        is_isqrt(n, r2),
    ensures
        r1 == r2,
{
    if r1 < r2 {
        assert((r1 + 1) * (r1 + 1) <= r2 * r2) by (nonlinear_arith)
            requires
                0 <= r1 < r2,
        ;
    } else if r2 < r1 {
        assert((r2 + 1) * (r2 + 1) <= r1 * r1) by (nonlinear_arith)
            requires
                0 <= r2 < r1,
        ;
    }
}

/// Bound on the numbers under the square root (2^72).
pub const SQRT_INPUT_BOUND: u128 = 4722366482869645213696;

/// The integer square root, by bisection.
pub fn sqrt_floor(n: u128) -> (r: u128)
    requires
        n <= SQRT_INPUT_BOUND,
    ensures
        is_isqrt(n as int, r as int),
        r as int == isqrt(n as int),
        r <= 68719476736,
{
    let mut lo: u128 = 0;
    let mut hi: u128 = 68719476737;
    assert(n < hi * hi) by (nonlinear_arith)
        requires
            n <= SQRT_INPUT_BOUND,
            hi == 68719476737,
    ;
    while hi - lo > 1
        invariant
            lo < hi <= 68719476737,
            lo * lo <= n,
            n < hi * hi,
        decreases hi - lo,
    {
        let mid = lo + (hi - lo) / 2;
        assert(mid * mid <= 68719476737 * 68719476737) by (nonlinear_arith)
            requires
                mid <= 68719476737,
        ;
        if mid * mid <= n {
            lo = mid;
        } else {
            hi = mid;
        }
    }
    proof {
        assert(is_isqrt(n as int, lo as int));
        lemma_isqrt_unique(n as int, lo as int, isqrt(n as int));
    }
    lo
}

impl Sphere {
    pub open spec fn wf(&self) -> bool {
        self.center.wf() && 0 < self.radius <= COORD_LIMIT
    }

    /// |d|^2, the leading coefficient of |o + t d - c|^2 = r^2.
    pub open spec fn coef_a(&self, ray: Ray) -> int {
        dot(ray.direction@, ray.direction@)
    }

    /// d . (c - o): the equation reads a t^2 - 2 b t + c0 = 0.
    pub open spec fn coef_b(&self, ray: Ray) -> int {
        dot(ray.direction@, vsub(self.center@, ray.origin@))
    }

    /// |c - o|^2 - r^2, positive iff the origin is outside the sphere.
    pub open spec fn coef_c(&self, ray: Ray) -> int {
        let l = vsub(self.center@, ray.origin@);
        dot(l, l) - self.radius * self.radius
    }

    /// The quarter discriminant b^2 - a c0.
    pub open spec fn disc(&self, ray: Ray) -> int {
        self.coef_b(ray) * self.coef_b(ray) - self.coef_a(ray) * self.coef_c(ray)
    }

    /// The hit `(num, den)` at parameter `num / den`, the smaller positive
    /// root. From outside, the nearer root (b - sqrt disc) / a, if the roots
    /// lie ahead (b >= 0), with the square root rounded down; from inside,
    /// the farther root (b + sqrt disc) / a, the only one ahead, whichever way
    /// the ray points, with the square root rounded up so that the reported
    /// parameter stays positive. Rays that miss and zero directions give none.
    pub open spec fn hit(&self, ray: Ray) -> Option<(int, int)> {
        let a = self.coef_a(ray);
        let b = self.coef_b(ray);
        let s = isqrt(self.disc(ray));
        if a == 0 || self.disc(ray) < 0 {
            None
        } else if self.coef_c(ray) > 0 {
            if b < 0 {
                None
            } else {
                Some((b - s, a))
            }
        } else if b + isqrt_up(self.disc(ray)) > 0 {
            Some((b + isqrt_up(self.disc(ray)), a))
        } else {
            None
        }
    }

    /// Intersects the ray with the sphere.
    pub fn intersect(&self, ray: &Ray) -> (r: Option<(i128, i128)>)
        requires
            self.wf(),
            ray.wf(),
        ensures
            r is None <==> self.hit(*ray) is None,
            r matches Some(h) ==> self.hit(*ray) == Some((h.0 as int, h.1 as int)),
            r matches Some(h) ==> 0 < h.0 <= 68719476736 && 0 < h.1 <= 68719476736,
    {
        let d = ray.direction.widen();
        let l = wsub(self.center.widen(), ray.origin.widen(), Ghost(65536int));
        let a = wdot(d, d, Ghost(65536int), Ghost(65536int));
        let b = wdot(d, l, Ghost(65536int), Ghost(131072int));
        let ll = wdot(l, l, Ghost(131072int), Ghost(131072int));
        assert(a >= 0 && ll >= 0) by (nonlinear_arith)
            requires
                a == d.x * d.x + d.y * d.y + d.z * d.z,
                ll == l.x * l.x + l.y * l.y + l.z * l.z,
        ;
        let rad = self.radius as i128;
        assert(0 < rad * rad <= 4294967296) by (nonlinear_arith)
            requires
                0 < rad <= 65536,
        ;
        let c0 = ll - rad * rad;
        if a == 0 || (b < 0 && c0 > 0) {
            return None;
        }
        proof {
            assert(0 <= b * b <= 664082786653543858176) by (nonlinear_arith)
                requires
                    -25769803776 <= b <= 25769803776,
            ;
            assert(-55340232221128654848 <= a * c0 <= 664082786653543858176) by (nonlinear_arith)
                requires
                    0 <= a <= 12884901888,
                    -4294967296 <= c0 <= 51539607552,
            ;
        }
        let disc = b * b - a * c0;
        if disc < 0 {
            return None;
        }
        assert(disc <= SQRT_INPUT_BOUND);
        let s = sqrt_floor(disc as u128) as i128;
        assert(s < 26843545600) by (nonlinear_arith)
            requires
                0 <= s,
                s * s <= disc,
                disc <= 719423018874672513024,
        ;
        proof {
            assert(c0 == self.coef_c(*ray));
            assert(disc == self.disc(*ray));
        }
        if c0 > 0 {
            proof {
                assert(s < b) by (nonlinear_arith)
                    requires
                        s * s <= disc,
                        disc == b * b - a * c0,
                        a > 0,
                        c0 > 0,
                        b >= 0,
                        s >= 0,
                ;
            }
            Some((b - s, a))
        } else {
            let su = if s * s == disc {
                s
            } else {
                s + 1
            };
            if b + su > 0 {
                Some((b + su, a))
            } else {
                None
            }
        }
    }

    /// From outside, a ray hits iff the quadratic a t^2 - 2 b t + c0 = 0 has
    /// a real root (disc >= 0) that is non-negative (b >= 0, the roots
    /// having a positive product c0 / a); the reported parameter is then
    /// (b - s) / a with s the integer square root of disc: at most 1 / a above
    /// the smaller root (b - sqrt disc) / a, and positive.
    pub proof fn lemma_hit_from_outside(&self, ray: Ray)
        requires
            self.coef_c(ray) > 0,
            self.coef_a(ray) > 0,
        ensures
            self.hit(ray) is Some <==> (self.disc(ray) >= 0 && self.coef_b(ray) >= 0),
            self.hit(ray) matches Some(h) ==> {
                let s = self.coef_b(ray) - h.0;
                &&& h.1 == self.coef_a(ray)
                &&& 0 <= s
                &&& s * s <= self.disc(ray) < (s + 1) * (s + 1)
                &&& h.0 > 0
            },
    {
        if self.disc(ray) >= 0 && self.coef_b(ray) >= 0 {
            let n = self.disc(ray);
            let s = sqrt_witness(n);
            lemma_isqrt_unique(n, s, isqrt(n));
            let b = self.coef_b(ray);
            let a = self.coef_a(ray);
            let c0 = self.coef_c(ray);
            assert(s < b) by (nonlinear_arith)
                requires
                    s * s <= n,
                    n == b * b - a * c0,
                    a > 0,
                    c0 > 0,
                    b >= 0,
                    s >= 0,
            ;
        }
    }
}

impl Sphere {
    /// From strictly inside, every ray with a direction hits: the exit root
    /// (b + sqrt disc) / a is positive. The reported parameter is (b + s) / a
    /// with s the square root of disc rounded up: never below the exit root,
    /// at most 1 / a above it, and positive.
    pub proof fn lemma_hit_from_inside(&self, ray: Ray)
        requires
            self.coef_c(ray) < 0,
            self.coef_a(ray) > 0,
        ensures
            self.hit(ray) is Some,
            self.hit(ray) matches Some(h) ==> {
                let s = h.0 - self.coef_b(ray);
                &&& h.1 == self.coef_a(ray)
                &&& 0 <= s
                &&& (s - 1) * (s - 1) < self.disc(ray) <= s * s
                &&& h.0 > 0
            },
    {
        let a = self.coef_a(ray);
        let b = self.coef_b(ray);
        let c0 = self.coef_c(ray);
        let n = self.disc(ray);
        assert(n > b * b) by (nonlinear_arith)
            requires
                n == b * b - a * c0,
                a > 0,
                c0 < 0,
        ;
        assert(b * b >= 0) by (nonlinear_arith);
        let r = sqrt_witness(n);
        lemma_isqrt_unique(n, r, isqrt(n));
        let su = isqrt_up(n);
        if r * r == n {
            assert(r != 0);
            assert((r - 1) * (r - 1) < r * r) by (nonlinear_arith)
                requires
                    r > 0,
            ;
        } else {
            assert(su - 1 == r);
        }
        assert(su * su >= n && (su - 1) * (su - 1) < n && su >= 0);
        assert(b + su > 0) by (nonlinear_arith)
            requires
                su * su >= n,
                n > b * b,
                su >= 0,
        ;
    }
}

/// Every non-negative integer has an integer square root.
pub proof fn sqrt_witness(n: int) -> (r: int)
    requires
        n >= 0,
    ensures
        is_isqrt(n, r),
    decreases n,
{
    if n == 0 {
        assert(is_isqrt(0, 0)) by (nonlinear_arith);
        0
    } else {
        let p = sqrt_witness(n - 1);
        if (p + 1) * (p + 1) <= n {
            assert(n < (p + 2) * (p + 2)) by (nonlinear_arith)
                requires
                    n - 1 < (p + 1) * (p + 1),
                    p >= 0,
            ;
            assert((p + 1 + 1) * (p + 1 + 1) == (p + 2) * (p + 2));
            p + 1
        } else {
            p
        }
    }
}

} // verus!
