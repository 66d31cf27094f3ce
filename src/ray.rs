//! Rays on the lattice.
use vstd::prelude::*;
use crate::vector::{Point, V3, vadd, vscale};

verus! {

/// A ray `origin + t * direction`, t > 0. The direction need not be normalised.
#[derive(Clone, Copy, Debug, PartialEq, Eq, Structural)]
pub struct Ray {
    pub origin: Point,
    pub direction: Point,
}

impl Ray {
    pub open spec fn wf(&self) -> bool {
        self.origin.wf() && self.direction.wf()
    }

    /// `k` times the point at parameter `tk / k`.
    pub open spec fn scaled_point(&self, k: int, tk: int) -> V3 {
        vadd(vscale(k, self.origin@), vscale(tk, self.direction@))
    }

    /// The ray from `from` through `to`, reaching it at parameter 1.
    pub open spec fn new_spec(from: Point, to: Point) -> Ray {
        Ray {
            origin: from,
            direction: Point { x: (to.x - from.x) as i64, y: (to.y - from.y) as i64, z: (to.z - from.z) as i64 },
        }
    }

    pub fn new(origin: Point, direction: Point) -> (r: Ray)
        ensures
            r.origin == origin,
            r.direction == direction,
    {
        Ray { origin, direction }
    }
}

} // verus!
