//! Ray-plane intersection.
use vstd::prelude::*;
use crate::material::Material;
use crate::ray::Ray;
use crate::vector::{Point, dot, vsub, wdot, wsub};

verus! {

/// The plane through `p0` orthogonal to `normal`.
#[derive(Clone, Copy, Debug, PartialEq, Eq, Structural)]
pub struct Plane {
    pub p0: Point,
    pub normal: Point,
    pub material: Material,
}

impl Plane {
    pub open spec fn wf(&self) -> bool {
        self.p0.wf() && self.normal.wf()
    }

    /// n . d; zero when the ray runs parallel to the plane.
    pub open spec fn denom(&self, ray: Ray) -> int {
        dot(self.normal@, ray.direction@)
    }

    /// n . (p0 - o); the hit is at t = numer / denom.
    pub open spec fn numer(&self, ray: Ray) -> int {
        dot(self.normal@, vsub(self.p0@, ray.origin@))
    }

    /// The hit `(num, den)` at parameter `num / den`, with `den > 0`, if the
    /// ray is not parallel to the plane and meets it ahead of its origin.
    pub open spec fn hit(&self, ray: Ray) -> Option<(int, int)> {
        if self.denom(ray) > 0 && self.numer(ray) > 0 {
            Some((self.numer(ray), self.denom(ray)))
        } else if self.denom(ray) < 0 && self.numer(ray) < 0 {
            Some((-self.numer(ray), -self.denom(ray)))
        } else {
            None
        }
    }

    /// Intersects the ray with the plane.
    pub fn intersect(&self, ray: &Ray) -> (r: Option<(i128, i128)>)
        requires
            self.wf(),
            ray.wf(),
        ensures
            r is None <==> self.hit(*ray) is None,
            r matches Some(h) ==> self.hit(*ray) == Some((h.0 as int, h.1 as int)),
            r matches Some(h) ==> 0 < h.0 <= 25769803776 && 0 < h.1 <= 12884901888,
    {
        let n = self.normal.widen();
        let den = wdot(n, ray.direction.widen(), Ghost(65536int), Ghost(65536int));
        let diff = wsub(self.p0.widen(), ray.origin.widen(), Ghost(65536int));
        let num = wdot(n, diff, Ghost(65536int), Ghost(131072int));
        if den == 0 {
            None
        } else if den < 0 {
            if num < 0 {
                Some((-num, -den))
            } else {
                None
            }
        } else if num > 0 {
            Some((num, den))
        } else {
            None
        }
    }
}

} // verus!
