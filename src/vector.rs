//! Points and vectors on the integer lattice, with their exact algebra.
use vstd::prelude::*;

verus! {

/// Largest magnitude of a coordinate of a point or of a ray direction.
pub const COORD_LIMIT: i64 = 65536;

/// A point or a direction, in fixed-point lattice units.
#[derive(Clone, Copy, Debug, PartialEq, Eq, Structural)]
pub struct Point {
    pub x: i64,
    pub y: i64,
    pub z: i64,
}

/// An intermediate vector of wide integers (differences, cross products).
#[derive(Clone, Copy, Debug, PartialEq, Eq, Structural)]
pub struct Wide {
    pub x: i128,
    pub y: i128,
    pub z: i128,
}

pub type V3 = (int, int, int);

pub open spec fn abs(a: int) -> int {
    if a < 0 {
        -a
    } else {
        a
    }
}

pub open spec fn bounded(v: V3, m: int) -> bool {
    abs(v.0) <= m && abs(v.1) <= m && abs(v.2) <= m
}

pub open spec fn vadd(a: V3, b: V3) -> V3 {
    (a.0 + b.0, a.1 + b.1, a.2 + b.2)
}

pub open spec fn vsub(a: V3, b: V3) -> V3 {
    (a.0 - b.0, a.1 - b.1, a.2 - b.2)
}

pub open spec fn vscale(k: int, a: V3) -> V3 {
    (k * a.0, k * a.1, k * a.2)
}

pub open spec fn dot(a: V3, b: V3) -> int {
    a.0 * b.0 + a.1 * b.1 + a.2 * b.2
}

pub open spec fn cross(a: V3, b: V3) -> V3 {
    (a.1 * b.2 - a.2 * b.1, a.2 * b.0 - a.0 * b.2, a.0 * b.1 - a.1 * b.0)
}

impl View for Point {
    type V = V3;

    open spec fn view(&self) -> V3 {
        (self.x as int, self.y as int, self.z as int)
    }
}

impl View for Wide {
    type V = V3;

    open spec fn view(&self) -> V3 {
        (self.x as int, self.y as int, self.z as int)
    }
}

impl Point {
    /// Within the lattice's coordinate limit.
    pub open spec fn wf(&self) -> bool {
        bounded(self@, COORD_LIMIT as int)
    }

    pub fn new(x: i64, y: i64, z: i64) -> (r: Point)
        ensures
            r@ == (x as int, y as int, z as int),
    {
        Point { x, y, z }
    }

    pub fn widen(&self) -> (r: Wide)
        ensures
            r@ == self@,
    {
        Wide { x: self.x as i128, y: self.y as i128, z: self.z as i128 }
    }

    pub fn is_inside_limit(&self) -> (r: bool)
        ensures
            r == self.wf(),
    {
        -COORD_LIMIT <= self.x && self.x <= COORD_LIMIT && -COORD_LIMIT <= self.y && self.y
            <= COORD_LIMIT && -COORD_LIMIT <= self.z && self.z <= COORD_LIMIT
    }
}

/// |x * y| is at most the product of the bounds.
pub proof fn lemma_mul_abs_bound(x: int, y: int, bx: int, by: int)
    requires
        abs(x) <= bx,
        abs(y) <= by,
    ensures
        abs(x * y) <= bx * by,
        -(bx * by) <= x * y <= bx * by,
{
    assert(abs(x * y) == abs(x) * abs(y)) by (nonlinear_arith);
    assert(abs(x) * abs(y) <= bx * by) by (nonlinear_arith)
        requires
            0 <= abs(x) <= bx,
            0 <= abs(y) <= by,
    ;
}

/// a - b on wide vectors.
pub(crate) fn wsub(a: Wide, b: Wide, m: Ghost<int>) -> (r: Wide)
    requires
        bounded(a@, m@),
        bounded(b@, m@),
        2 * m@ <= i128::MAX,
    ensures
        r@ == vsub(a@, b@),
        bounded(r@, 2 * m@),
{
    Wide { x: a.x - b.x, y: a.y - b.y, z: a.z - b.z }
}

/// Dot product of two wide vectors.
pub(crate) fn wdot(a: Wide, b: Wide, ma: Ghost<int>, mb: Ghost<int>) -> (r: i128)
    requires
        bounded(a@, ma@),
        bounded(b@, mb@),
        3 * (ma@ * mb@) <= i128::MAX,
    ensures
        r as int == dot(a@, b@),
        abs(r as int) <= 3 * (ma@ * mb@),
{
    proof {
        lemma_mul_abs_bound(a.x as int, b.x as int, ma@, mb@);
        lemma_mul_abs_bound(a.y as int, b.y as int, ma@, mb@);
        lemma_mul_abs_bound(a.z as int, b.z as int, ma@, mb@);
    }
    a.x * b.x + a.y * b.y + a.z * b.z
}

/// Cross product of two wide vectors.
pub(crate) fn wcross(a: Wide, b: Wide, ma: Ghost<int>, mb: Ghost<int>) -> (r: Wide)
    requires
        bounded(a@, ma@),
        bounded(b@, mb@),
        2 * (ma@ * mb@) <= i128::MAX,
    ensures
        r@ == cross(a@, b@),
        bounded(r@, 2 * (ma@ * mb@)),
{
    proof {
        lemma_mul_abs_bound(a.x as int, b.y as int, ma@, mb@);
        lemma_mul_abs_bound(a.y as int, b.x as int, ma@, mb@);
        lemma_mul_abs_bound(a.y as int, b.z as int, ma@, mb@);
        lemma_mul_abs_bound(a.z as int, b.y as int, ma@, mb@);
        lemma_mul_abs_bound(a.z as int, b.x as int, ma@, mb@);
        lemma_mul_abs_bound(a.x as int, b.z as int, ma@, mb@);
    }
    Wide {
        x: a.y * b.z - a.z * b.y,
        y: a.z * b.x - a.x * b.z,
        z: a.x * b.y - a.y * b.x,
    }
}

} // verus!
