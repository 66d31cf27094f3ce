//! A scene of spheres, planes and a triangle mesh, and its nearest hit.
use vstd::prelude::*;
use crate::bvh::{Mesh, hit_bounded, is_nearest};
use crate::distance::{DIST_BOUND, Distance, frac_le, lemma_frac_le_total, lemma_frac_le_trans};
use crate::plane::Plane;
use crate::ray::Ray;
use crate::sphere::Sphere;
use crate::triangle::Triangle;
use crate::vector::{Point, V3, Wide, lemma_mul_abs_bound, vadd, vscale, vsub};

verus! {

/// A point light of the given intensity.
#[derive(Clone, Copy, Debug, PartialEq, Eq, Structural)]
pub struct Light {
    pub position: Point,
    pub intensity: u32,
}

/// Which primitive was hit.
#[derive(Clone, Copy, Debug, PartialEq, Eq, Structural)]
pub enum Shape {
    Sphere(usize),
    Plane(usize),
    Triangle(usize),
}

/// A hit: where along the ray, on what, and for a triangle the barycentric
/// weights `u / distance.den` on `p1` and `v / distance.den` on `p2`.
#[derive(Clone, Copy, Debug, PartialEq, Eq, Structural)]
pub struct Intersection {
    pub distance: Distance,
    pub shape: Shape,
    pub u: i128,
    pub v: i128,
}

pub struct Scene {
    pub lights: Vec<Light>,
    pub planes: Vec<Plane>,
    pub spheres: Vec<Sphere>,
    pub mesh: Mesh,
}

impl Scene {
    pub open spec fn wf(&self) -> bool {
        &&& forall|i: int| 0 <= i < self.spheres@.len() ==> (#[trigger] self.spheres@[i]).wf()
        &&& forall|i: int| 0 <= i < self.planes@.len() ==> (#[trigger] self.planes@[i]).wf()
        &&& self.mesh.wf()
    }

    /// A scene of the given primitives, if all their coordinates are within
    /// the lattice's limit and all radii positive.
    pub fn new(lights: Vec<Light>, planes: Vec<Plane>, spheres: Vec<Sphere>, mesh: Mesh) -> (r: Option<Scene>)
        requires
            mesh.wf(),
        ensures
            r is Some <==> (forall|i: int| 0 <= i < spheres@.len() ==> (#[trigger] spheres@[i]).wf()) && (forall|i: int|
                0 <= i < planes@.len() ==> (#[trigger] planes@[i]).wf()),
            r matches Some(s) ==> s.wf() && s.lights@ == lights@ && s.planes@ == planes@ && s.spheres@ == spheres@
                && s.mesh == mesh,
    {
        let mut i: usize = 0;
        while i < spheres.len()
            invariant
                i <= spheres@.len(),
                forall|j: int| 0 <= j < i ==> (#[trigger] spheres@[j]).wf(),
            decreases spheres@.len() - i,
        {
            let s = &spheres[i];
            if !(s.center.is_inside_limit() && 0 < s.radius && s.radius <= crate::vector::COORD_LIMIT) {
                return None;
            }
            i += 1;
        }
        let mut i: usize = 0;
        while i < planes.len()
            invariant
                i <= planes@.len(),
                forall|j: int| 0 <= j < spheres@.len() ==> (#[trigger] spheres@[j]).wf(),
                forall|j: int| 0 <= j < i ==> (#[trigger] planes@[j]).wf(),
            decreases planes@.len() - i,
        {
            let p = &planes[i];
            if !(p.p0.is_inside_limit() && p.normal.is_inside_limit()) {
                return None;
            }
            i += 1;
        }
        Some(Scene { lights, planes, spheres, mesh })
    }

    /// The parameter `(num, den)` at which the ray hits `shape`, if it does.
    pub open spec fn hit_of(&self, shape: Shape, ray: Ray) -> Option<(int, int)> {
        match shape {
            Shape::Sphere(i) => if i < self.spheres@.len() {
                self.spheres@[i as int].hit(ray)
            } else {
                None
            },
            Shape::Plane(i) => if i < self.planes@.len() {
                self.planes@[i as int].hit(ray)
            } else {
                None
            },
            Shape::Triangle(i) => if i < self.mesh.triangles@.len() {
                match self.mesh.triangles@[i as int].hit(ray) {
                    Some(h) => Some((h.0, h.3)),
                    None => None,
                }
            } else {
                None
            },
        }
    }

    /// `x` is the hit of the ray on its shape, with the barycentric weights
    /// of a triangle hit (and none for other shapes).
    pub open spec fn hit_matches(&self, ray: Ray, x: Intersection) -> bool {
        match x.shape {
            Shape::Triangle(k) => k < self.mesh.triangles@.len() && self.mesh.triangles@[k as int].hit(ray) == Some(
                (x.distance.num as int, x.u as int, x.v as int, x.distance.den as int),
            ),
            _ => x.u == 0 && x.v == 0 && self.hit_of(x.shape, ray) == Some(x.distance@),
        }
    }

    /// The outward normal at hit `x`, not normalised, scaled by the hit's
    /// denominator: for a sphere den * (point - centre), where den * point is
    /// den * origin + num * direction; for a plane its normal; for a triangle
    /// the vertex normals weighted by the barycentric weights,
    /// (den - u - v) * n0 + u * n1 + v * n2.
    pub open spec fn normal_spec(&self, ray: Ray, x: Intersection) -> V3 {
        let num = x.distance.num as int;
        let den = x.distance.den as int;
        match x.shape {
            Shape::Sphere(k) => vsub(
                vadd(vscale(den, ray.origin@), vscale(num, ray.direction@)),
                vscale(den, self.spheres@[k as int].center@),
            ),
            Shape::Plane(k) => self.planes@[k as int].normal@,
            Shape::Triangle(k) => {
                let t = self.mesh.triangles@[k as int];
                vadd(vadd(vscale(den - x.u - x.v, t.n0@), vscale(x.u as int, t.n1@)), vscale(x.v as int, t.n2@))
            },
        }
    }

    /// `r` is a nearest hit: `None` iff no primitive is hit, else a hit
    /// whose parameter is at most that of every hit.
    pub open spec fn is_nearest_hit(&self, ray: Ray, r: Option<Intersection>) -> bool {
        match r {
            None => forall|s: Shape| #[trigger] self.hit_of(s, ray) is None,
            Some(i) => {
                &&& self.hit_of(i.shape, ray) == Some(i.distance@)
                &&& forall|s: Shape|
                    #[trigger] self.hit_of(s, ray) is Some ==> frac_le(
                        i.distance.num as int,
                        i.distance.den as int,
                        self.hit_of(s, ray).unwrap().0,
                        self.hit_of(s, ray).unwrap().1,
                    )
            },
        }
    }
}

/// Reported parameters have positive denominators.
proof fn lemma_hit_of_positive(scene: &Scene, s: Shape, ray: Ray)
    requires
        scene.wf(),
        ray.wf(),
    ensures
        scene.hit_of(s, ray) matches Some(h) ==> h.1 > 0,
{
    match s {
        Shape::Triangle(k) => {
            if k < scene.mesh.triangles@.len() {
                scene.mesh.triangles@[k as int].lemma_hit_positive(ray);
            }
        },
        Shape::Sphere(k) => {
            if k < scene.spheres@.len() {
                lemma_sum_of_squares(ray.direction@.0, ray.direction@.1, ray.direction@.2);
            }
        },
        _ => {},
    }
}

proof fn lemma_sum_of_squares(a: int, b: int, c: int)
    ensures
        a * a + b * b + c * c >= 0,
{
    assert(a * a + b * b + c * c >= 0) by (nonlinear_arith);
}

/// den * o + num * d - den * c fits in 128 bits.
proof fn lemma_scaled_diff(den: int, num: int, o: int, d: int, c: int)
    requires
        0 < den <= DIST_BOUND,
        0 < num <= DIST_BOUND,
        -65536 <= o <= 65536,
        -65536 <= d <= 65536,
        -65536 <= c <= 65536,
    ensures
        -0x1_0000_0000_0000_0000_0000 <= den * o <= 0x1_0000_0000_0000_0000_0000,
        -0x1_0000_0000_0000_0000_0000 <= num * d <= 0x1_0000_0000_0000_0000_0000,
        -0x1_0000_0000_0000_0000_0000 <= den * c <= 0x1_0000_0000_0000_0000_0000,
{
    lemma_mul_abs_bound(den, o, DIST_BOUND as int, 65536);
    lemma_mul_abs_bound(num, d, DIST_BOUND as int, 65536);
    lemma_mul_abs_bound(den, c, DIST_BOUND as int, 65536);
}

/// w * a + u * b + v * c fits in 128 bits for weights below 2^56.
proof fn lemma_weighted(w: int, u: int, v: int, a: int, b: int, c: int)
    requires
        0 <= w <= DIST_BOUND,
        0 <= u <= DIST_BOUND,
        0 <= v <= DIST_BOUND,
        i64::MIN <= a <= i64::MAX,
        i64::MIN <= b <= i64::MAX,
        i64::MIN <= c <= i64::MAX,
    ensures
        -0x80_0000_0000_0000_0000_0000_0000_0000 <= w * a <= 0x80_0000_0000_0000_0000_0000_0000_0000,
        -0x80_0000_0000_0000_0000_0000_0000_0000 <= u * b <= 0x80_0000_0000_0000_0000_0000_0000_0000,
        -0x80_0000_0000_0000_0000_0000_0000_0000 <= v * c <= 0x80_0000_0000_0000_0000_0000_0000_0000,
{
    lemma_mul_abs_bound(w, a, DIST_BOUND as int, 0x8000_0000_0000_0000);
    lemma_mul_abs_bound(u, b, DIST_BOUND as int, 0x8000_0000_0000_0000);
    lemma_mul_abs_bound(v, c, DIST_BOUND as int, 0x8000_0000_0000_0000);
}

/// The nearer of two candidates, each nearest over its own set of shapes.
fn nearer(a: Option<Intersection>, b: Option<Intersection>) -> (r: Option<Intersection>)
    requires
        a matches Some(x) ==> x.distance.wf(),
        b matches Some(x) ==> x.distance.wf(),
    ensures
        r matches Some(x) ==> x.distance.wf(),
        a is None && b is None <==> r is None,
        r matches Some(x) ==> r == a || r == b,
        r matches Some(x) ==> (a matches Some(y) ==> frac_le(x.distance.num as int, x.distance.den as int, y.distance.num as int, y.distance.den as int)),
        r matches Some(x) ==> (b matches Some(y) ==> frac_le(x.distance.num as int, x.distance.den as int, y.distance.num as int, y.distance.den as int)),
{
    match (a, b) {
        (None, _) => b,
        (_, None) => a,
        (Some(x), Some(y)) => {
            proof {
                lemma_frac_le_total(x.distance.num as int, x.distance.den as int, y.distance.num as int, y.distance.den as int);
            }
            if x.distance.le(&y.distance) {
                a
            } else {
                b
            }
        },
    }
}

impl Scene {
    /// Nearest hit among the spheres.
    fn nearest_sphere(&self, ray: &Ray) -> (r: Option<Intersection>)
        requires
            self.wf(),
            ray.wf(),
        ensures
            r matches Some(x) ==> x.distance.wf() && x.shape is Sphere && self.hit_of(x.shape, *ray) == Some(x.distance@)
                && x.u == 0 && x.v == 0,
            r matches Some(x) ==> forall|i: int|
                0 <= i < self.spheres@.len() && (#[trigger] self.spheres@[i]).hit(*ray) is Some ==> frac_le(
                    x.distance.num as int,
                    x.distance.den as int,
                    self.spheres@[i].hit(*ray).unwrap().0,
                    self.spheres@[i].hit(*ray).unwrap().1,
                ),
            r is None ==> forall|i: int| 0 <= i < self.spheres@.len() ==> (#[trigger] self.spheres@[i]).hit(*ray) is None,
    {
        let mut best: Option<Intersection> = None;
        let mut k: usize = 0;
        while k < self.spheres.len()
            invariant
                self.wf(),
                ray.wf(),
                k <= self.spheres@.len(),
                best matches Some(x) ==> x.distance.wf() && x.shape is Sphere && self.hit_of(x.shape, *ray) == Some(x.distance@)
                    && x.u == 0 && x.v == 0,
                best matches Some(x) ==> forall|i: int|
                    0 <= i < k && (#[trigger] self.spheres@[i]).hit(*ray) is Some ==> frac_le(
                        x.distance.num as int,
                        x.distance.den as int,
                        self.spheres@[i].hit(*ray).unwrap().0,
                        self.spheres@[i].hit(*ray).unwrap().1,
                    ),
                best is None ==> forall|i: int| 0 <= i < k ==> (#[trigger] self.spheres@[i]).hit(*ray) is None,
            decreases self.spheres@.len() - k,
        {
            if let Some(h) = self.spheres[k].intersect(ray) {
                let d = Distance { num: h.0, den: h.1 };
                let closer = match best {
                    None => true,
                    Some(b) => !b.distance.le(&d),
                };
                if closer {
                    proof {
                        if let Some(b) = best {
                            lemma_frac_le_total(d.num as int, d.den as int, b.distance.num as int, b.distance.den as int);
                            assert forall|i: int|
                                0 <= i < k && (#[trigger] self.spheres@[i]).hit(*ray) is Some implies frac_le(
                                d.num as int,
                                d.den as int,
                                self.spheres@[i].hit(*ray).unwrap().0,
                                self.spheres@[i].hit(*ray).unwrap().1,
                            ) by {
                                lemma_frac_le_trans(
                                    d.num as int,
                                    d.den as int,
                                    b.distance.num as int,
                                    b.distance.den as int,
                                    self.spheres@[i].hit(*ray).unwrap().0,
                                    self.spheres@[i].hit(*ray).unwrap().1,
                                );
                            }
                        }
                    }
                    best = Some(Intersection { distance: d, shape: Shape::Sphere(k), u: 0, v: 0 });
                }
            }
            k += 1;
        }
        best
    }

    /// Nearest hit among the planes.
    fn nearest_plane(&self, ray: &Ray) -> (r: Option<Intersection>)
        requires
            self.wf(),
            ray.wf(),
        ensures
            r matches Some(x) ==> x.distance.wf() && x.shape is Plane && self.hit_of(x.shape, *ray) == Some(x.distance@)
                && x.u == 0 && x.v == 0,
            r matches Some(x) ==> forall|i: int|
                0 <= i < self.planes@.len() && (#[trigger] self.planes@[i]).hit(*ray) is Some ==> frac_le(
                    x.distance.num as int,
                    x.distance.den as int,
                    self.planes@[i].hit(*ray).unwrap().0,
                    self.planes@[i].hit(*ray).unwrap().1,
                ),
            r is None ==> forall|i: int| 0 <= i < self.planes@.len() ==> (#[trigger] self.planes@[i]).hit(*ray) is None,
    {
        let mut best: Option<Intersection> = None;
        let mut k: usize = 0;
        while k < self.planes.len()
            invariant
                self.wf(),
                ray.wf(),
                k <= self.planes@.len(),
                best matches Some(x) ==> x.distance.wf() && x.shape is Plane && self.hit_of(x.shape, *ray) == Some(x.distance@)
                    && x.u == 0 && x.v == 0,
                best matches Some(x) ==> forall|i: int|
                    0 <= i < k && (#[trigger] self.planes@[i]).hit(*ray) is Some ==> frac_le(
                        x.distance.num as int,
                        x.distance.den as int,
                        self.planes@[i].hit(*ray).unwrap().0,
                        self.planes@[i].hit(*ray).unwrap().1,
                    ),
                best is None ==> forall|i: int| 0 <= i < k ==> (#[trigger] self.planes@[i]).hit(*ray) is None,
            decreases self.planes@.len() - k,
        {
            if let Some(h) = self.planes[k].intersect(ray) {
                let d = Distance { num: h.0, den: h.1 };
                let closer = match best {
                    None => true,
                    Some(b) => !b.distance.le(&d),
                };
                if closer {
                    proof {
                        if let Some(b) = best {
                            lemma_frac_le_total(d.num as int, d.den as int, b.distance.num as int, b.distance.den as int);
                            assert forall|i: int|
                                0 <= i < k && (#[trigger] self.planes@[i]).hit(*ray) is Some implies frac_le(
                                d.num as int,
                                d.den as int,
                                self.planes@[i].hit(*ray).unwrap().0,
                                self.planes@[i].hit(*ray).unwrap().1,
                            ) by {
                                lemma_frac_le_trans(
                                    d.num as int,
                                    d.den as int,
                                    b.distance.num as int,
                                    b.distance.den as int,
                                    self.planes@[i].hit(*ray).unwrap().0,
                                    self.planes@[i].hit(*ray).unwrap().1,
                                );
                            }
                        }
                    }
                    best = Some(Intersection { distance: d, shape: Shape::Plane(k), u: 0, v: 0 });
                }
            }
            k += 1;
        }
        best
    }

    /// Nearest hit of the ray in the scene, over all kinds of primitives;
    /// among equally near hits any one may be reported.
    pub fn nearest_intersection(&self, ray: &Ray) -> (r: Option<Intersection>)
        requires
            self.wf(),
            ray.wf(),
        ensures
            self.is_nearest_hit(*ray, r),
            r matches Some(x) ==> x.distance.wf() && self.hit_matches(*ray, x),
    {
        let sphere = self.nearest_sphere(ray);
        let plane = self.nearest_plane(ray);
        let tri = self.mesh.intersect(ray);
        let mesh = match tri {
            None => None,
            Some((k, h)) => Some(
                Intersection { distance: Distance { num: h.t, den: h.den }, shape: Shape::Triangle(k), u: h.u, v: h.v },
            ),
        };
        let first = nearer(sphere, plane);
        let r = nearer(first, mesh);
        proof {
            let tris = self.mesh.triangles@;
            match r {
                None => {
                    assert forall|s: Shape| #[trigger] self.hit_of(s, *ray) is None by {
                        match s {
                            Shape::Triangle(k) => {
                                if k < tris.len() {
                                    assert(tris[k as int].hit(*ray) is None);
                                }
                            },
                            _ => {},
                        }
                    }
                },
                Some(x) => {
                    assert forall|s: Shape| #[trigger] self.hit_of(s, *ray) is Some implies frac_le(
                        x.distance.num as int,
                        x.distance.den as int,
                        self.hit_of(s, *ray).unwrap().0,
                        self.hit_of(s, *ray).unwrap().1,
                    ) by {
                        let hs = self.hit_of(s, *ray).unwrap();
                        match s {
                            Shape::Sphere(k) => {
                                assert(self.spheres@[k as int].hit(*ray) is Some);
                                let y = sphere.unwrap();
                                let z = first.unwrap();
                                lemma_frac_le_trans(z.distance.num as int, z.distance.den as int, y.distance.num as int, y.distance.den as int, hs.0, hs.1);
                                lemma_frac_le_trans(x.distance.num as int, x.distance.den as int, z.distance.num as int, z.distance.den as int, hs.0, hs.1);
                            },
                            Shape::Plane(k) => {
                                assert(self.planes@[k as int].hit(*ray) is Some);
                                let y = plane.unwrap();
                                let z = first.unwrap();
                                lemma_frac_le_trans(z.distance.num as int, z.distance.den as int, y.distance.num as int, y.distance.den as int, hs.0, hs.1);
                                lemma_frac_le_trans(x.distance.num as int, x.distance.den as int, z.distance.num as int, z.distance.den as int, hs.0, hs.1);
                            },
                            Shape::Triangle(k) => {
                                assert(tris[k as int].hit(*ray) is Some);
                                let y = mesh.unwrap();
                                lemma_frac_le_trans(x.distance.num as int, x.distance.den as int, y.distance.num as int, y.distance.den as int, hs.0, hs.1);
                            },
                        }
                    }
                },
            }
        }
        r
    }

    /// Whether the segment from `from` to `to` is free of primitives: a
    /// shadow ray toward a light. Hits at the far end itself do not block.
    pub fn unoccluded(&self, from: Point, to: Point) -> (r: bool)
        requires
            self.wf(),
            from.wf(),
            to.wf(),
            Ray::new_spec(from, to).wf(),
        ensures
            r <==> forall|s: Shape| #[trigger] self.hit_of(s, Ray::new_spec(from, to)) is Some ==> self.hit_of(
                s,
                Ray::new_spec(from, to),
            ).unwrap().0 >= self.hit_of(s, Ray::new_spec(from, to)).unwrap().1,
    {
        let ray = Ray { origin: from, direction: Point::new(to.x - from.x, to.y - from.y, to.z - from.z) };
        assert(ray == Ray::new_spec(from, to));
        match self.nearest_intersection(&ray) {
            None => true,
            Some(x) => {
                proof {
                    if x.distance.num >= x.distance.den {
                        assert forall|s: Shape| #[trigger] self.hit_of(s, ray) is Some implies self.hit_of(s, ray).unwrap().0
                            >= self.hit_of(s, ray).unwrap().1 by {
                            let h = self.hit_of(s, ray).unwrap();
                            assert(frac_le(1, 1, x.distance.num as int, x.distance.den as int));
                            lemma_hit_of_positive(self, s, ray);
                            lemma_frac_le_trans(1, 1, x.distance.num as int, x.distance.den as int, h.0, h.1);
                        }
                    } else {
                        assert(self.hit_of(x.shape, ray) == Some(x.distance@));
                    }
                }
                x.distance.num >= x.distance.den
            },
        }
    }

    /// The surface normal at a hit, as `normal_spec` gives it; the caller
    /// normalises it.
    pub fn normal_at(&self, ray: &Ray, x: &Intersection) -> (r: Wide)
        requires
            self.wf(),
            ray.wf(),
            x.distance.wf(),
            self.hit_matches(*ray, *x),
        ensures
            r@ == self.normal_spec(*ray, *x),
    {
        let num = x.distance.num;
        let den = x.distance.den;
        match x.shape {
            Shape::Sphere(k) => {
                let o = ray.origin;
                let d = ray.direction;
                let c = self.spheres[k].center;
                proof {
                    lemma_scaled_diff(den as int, num as int, o.x as int, d.x as int, c.x as int);
                    lemma_scaled_diff(den as int, num as int, o.y as int, d.y as int, c.y as int);
                    lemma_scaled_diff(den as int, num as int, o.z as int, d.z as int, c.z as int);
                }
                Wide {
                    x: den * (o.x as i128) + num * (d.x as i128) - den * (c.x as i128),
                    y: den * (o.y as i128) + num * (d.y as i128) - den * (c.y as i128),
                    z: den * (o.z as i128) + num * (d.z as i128) - den * (c.z as i128),
                }
            },
            Shape::Plane(k) => self.planes[k].normal.widen(),
            Shape::Triangle(k) => {
                let t = self.mesh.triangles[k];
                let (u, v) = (x.u, x.v);
                let w = den - u - v;
                proof {
                    lemma_weighted(w as int, u as int, v as int, t.n0.x as int, t.n1.x as int, t.n2.x as int);
                    lemma_weighted(w as int, u as int, v as int, t.n0.y as int, t.n1.y as int, t.n2.y as int);
                    lemma_weighted(w as int, u as int, v as int, t.n0.z as int, t.n1.z as int, t.n2.z as int);
                }
                Wide {
                    x: w * (t.n0.x as i128) + u * (t.n1.x as i128) + v * (t.n2.x as i128),
                    y: w * (t.n0.y as i128) + u * (t.n1.y as i128) + v * (t.n2.y as i128),
                    z: w * (t.n0.z as i128) + u * (t.n1.z as i128) + v * (t.n2.z as i128),
                }
            },
        }
    }
}

} // verus!
