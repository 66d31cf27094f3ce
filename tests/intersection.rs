use pathtracer::material::{Color, Material};
use pathtracer::plane::Plane;
use pathtracer::ray::Ray;
use pathtracer::sphere::{sqrt_floor, Sphere};
use pathtracer::triangle::{Triangle, TriangleHit};
use pathtracer::vector::Point;

fn p(x: i64, y: i64, z: i64) -> Point {
    Point::new(x, y, z)
}

fn grey() -> Material {
    Material::Conductor { color: Color { r: 800, g: 800, b: 800 }, spec: 0 }
}

fn glass() -> Material {
    Material::Dielectric { absorbance: Color { r: 0, g: 0, b: 0 }, n1: 1000, n2: 1500 }
}

fn tri(material: Material) -> Triangle {
    Triangle {
        p0: p(0, 0, 0),
        p1: p(4, 0, 0),
        p2: p(0, 4, 0),
        n0: p(0, 0, 1),
        n1: p(0, 0, 1),
        n2: p(0, 0, 1),
        material,
    }
}

#[test]
fn triangle_front_hit_has_exact_parameter_and_weights() {
    let ray = Ray::new(p(1, 1, 5), p(0, 0, -1));
    let h = tri(grey()).intersect(&ray).unwrap();
    assert_eq!(h, TriangleHit { t: 80, u: 4, v: 4, den: 16 });
    // t = 5, u = v = 1/4: origin + 5 * direction == p0 + e1 / 4 + e2 / 4 == (1, 1, 0).
    assert_eq!(h.t * 1, 5 * h.den);
    assert_eq!(h.u * 4, h.den);
}

#[test]
fn triangle_back_face_is_culled_only_when_opaque() {
    let ray = Ray::new(p(1, 1, -5), p(0, 0, 1));
    assert_eq!(tri(grey()).intersect(&ray), None);
    let h = tri(glass()).intersect(&ray).unwrap();
    assert_eq!(h, TriangleHit { t: 80, u: 4, v: 4, den: 16 });
}

#[test]
fn triangle_misses_outside_barycentric_range() {
    // u + v > 1: the point (3, 3, 0) lies beyond the hypotenuse.
    assert_eq!(tri(glass()).intersect(&Ray::new(p(3, 3, 5), p(0, 0, -1))), None);
    // u < 0.
    assert_eq!(tri(glass()).intersect(&Ray::new(p(-1, 1, 5), p(0, 0, -1))), None);
    // Behind the origin.
    assert_eq!(tri(glass()).intersect(&Ray::new(p(1, 1, 5), p(0, 0, 1))), None);
}

#[test]
fn triangle_parallel_ray_and_zero_direction_miss() {
    assert_eq!(tri(glass()).intersect(&Ray::new(p(1, 1, 5), p(1, 0, 0))), None);
    assert_eq!(tri(glass()).intersect(&Ray::new(p(1, 1, 5), p(0, 0, 0))), None);
}

#[test]
fn triangle_edge_point_counts_as_hit() {
    // Exactly on the hypotenuse: u + v == 1.
    let h = tri(glass()).intersect(&Ray::new(p(2, 2, 5), p(0, 0, -1))).unwrap();
    assert_eq!(h.u + h.v, h.den);
}

fn ball(r: i64) -> Sphere {
    Sphere { center: p(0, 0, 0), radius: r, material: grey() }
}

#[test]
fn sphere_hit_from_outside_at_nearer_root() {
    assert_eq!(ball(2).intersect(&Ray::new(p(0, 0, 10), p(0, 0, -1))), Some((8, 1)));
}

#[test]
fn sphere_irrational_root_is_rounded_within_one_over_a() {
    // Roots 10 +- sqrt(3) for a unit direction; with |d| = 1000 the
    // parameter is (10000 - 1732) / 10^6, i.e. 8.268 along the unit ray.
    let r = ball(2).intersect(&Ray::new(p(1, 0, 10), p(0, 0, -1000))).unwrap();
    assert_eq!(r, (8268, 1_000_000));
    let coarse = ball(2).intersect(&Ray::new(p(1, 0, 10), p(0, 0, -1))).unwrap();
    assert_eq!(coarse, (9, 1));
}

#[test]
fn sphere_misses_and_rays_pointing_away() {
    assert_eq!(ball(2).intersect(&Ray::new(p(5, 0, 10), p(0, 0, -1))), None);
    assert_eq!(ball(2).intersect(&Ray::new(p(0, 0, 10), p(0, 0, 1))), None);
    assert_eq!(ball(2).intersect(&Ray::new(p(0, 0, 10), p(0, 0, 0))), None);
}

#[test]
fn sphere_from_inside_hits_far_root() {
    assert_eq!(ball(2).intersect(&Ray::new(p(0, 0, 0), p(0, 0, 1))), Some((2, 1)));
}

#[test]
fn sphere_tangent_ray_touches_once() {
    // Grazing at (2, 0, 0): disc == 0, a single root at t = 10.
    assert_eq!(ball(2).intersect(&Ray::new(p(2, 0, 10), p(0, 0, -1))), Some((10, 1)));
}

#[test]
fn integer_square_root_rounds_down() {
    assert_eq!(sqrt_floor(0), 0);
    assert_eq!(sqrt_floor(3), 1);
    assert_eq!(sqrt_floor(4), 2);
    assert_eq!(sqrt_floor(3_000_000), 1732);
    assert_eq!(sqrt_floor(1u128 << 72), 1u128 << 36);
}

fn floor_plane() -> Plane {
    Plane { p0: p(0, 0, 0), normal: p(0, 1, 0), material: grey() }
}

#[test]
fn plane_hit_from_either_side() {
    assert_eq!(floor_plane().intersect(&Ray::new(p(0, 5, 0), p(0, -1, 0))), Some((5, 1)));
    assert_eq!(floor_plane().intersect(&Ray::new(p(0, -5, 0), p(0, 2, 0))), Some((5, 2)));
}

#[test]
fn plane_parallel_or_receding_rays_miss() {
    assert_eq!(floor_plane().intersect(&Ray::new(p(0, 5, 0), p(1, 0, 0))), None);
    assert_eq!(floor_plane().intersect(&Ray::new(p(0, 5, 0), p(0, 1, 0))), None);
    assert_eq!(floor_plane().intersect(&Ray::new(p(0, 0, 0), p(0, -1, 0))), None);
}

fn sub(a: Point, b: Point) -> [i128; 3] {
    [(a.x - b.x) as i128, (a.y - b.y) as i128, (a.z - b.z) as i128]
}

fn dot3(a: [i128; 3], b: [i128; 3]) -> i128 {
    a[0] * b[0] + a[1] * b[1] + a[2] * b[2]
}

#[test]
fn triangle_hits_solve_the_barycentric_system() {
    let t = Triangle { p0: p(-3, 1, 2), p1: p(5, -2, 1), p2: p(1, 6, -3), ..tri(glass()) };
    let e1 = sub(t.p1, t.p0);
    let e2 = sub(t.p2, t.p0);
    let mut hits = 0;
    for ox in -4..5 {
        for oy in -4..5 {
            for d in [p(0, 0, -1), p(1, 1, -3), p(-2, 1, -1), p(0, 0, 1), p(1, -1, 2)] {
                let o = p(ox, oy, 9);
                let ray = Ray::new(o, d);
                if let Some(h) = t.intersect(&ray) {
                    hits += 1;
                    assert!(h.den > 0 && h.t > 0 && h.u >= 0 && h.v >= 0 && h.u + h.v <= h.den);
                    let s = sub(o, t.p0);
                    let dv = [d.x as i128, d.y as i128, d.z as i128];
                    for i in 0..3 {
                        assert_eq!(h.den * s[i] + h.t * dv[i], h.u * e1[i] + h.v * e2[i]);
                    }
                }
            }
        }
    }
    assert!(hits > 0);
}

#[test]
fn sphere_hit_iff_quadratic_has_a_non_negative_root() {
    let s = Sphere { center: p(1, -2, 3), radius: 4, material: grey() };
    for ox in -9..10 {
        for d in [p(0, 0, -1), p(1, 2, -3), p(-5, 0, 1), p(0, 3, 0), p(7, -7, 7)] {
            let o = p(ox, 6, 12 - ox);
            let l = sub(s.center, o);
            let dv = [d.x as i128, d.y as i128, d.z as i128];
            let a = dot3(dv, dv);
            let b = dot3(dv, l);
            let c = dot3(l, l) - 16;
            assert!(c > 0);
            let disc = b * b - a * c;
            let r = s.intersect(&Ray::new(o, d));
            assert_eq!(r.is_some(), disc >= 0 && b >= 0);
            if let Some((num, den)) = r {
                assert_eq!(den, a);
                // num / a is the smaller root (b - sqrt(disc)) / a rounded up by less than 1 / a.
                let root = b - num;
                assert!(root >= 0 && root * root <= disc && disc < (root + 1) * (root + 1));
                assert!(num > 0);
            }
        }
    }
}

#[test]
fn sphere_from_inside_pointing_away_from_centre_hits() {
    // From (1, 0, 0) along +x the only root ahead is t = 1, at (2, 0, 0).
    assert_eq!(ball(2).intersect(&Ray::new(p(1, 0, 0), p(1, 0, 0))), Some((1, 1)));
    // From (0, 1, 0) along +y: t = 1.
    assert_eq!(ball(2).intersect(&Ray::new(p(0, 1, 0), p(0, 1, 0))), Some((1, 1)));
    // On the surface heading out: the only root is t = 0, behind.
    assert_eq!(ball(2).intersect(&Ray::new(p(2, 0, 0), p(1, 0, 0))), None);
}

#[test]
fn sphere_from_inside_near_the_surface_keeps_its_exit() {
    // Origin just inside: b = -5, disc = 26, exit root -5 + sqrt(26) = 0.099.
    // The square root is rounded up, so the reported parameter is 1 / 1.
    let s = Sphere { center: p(1, 3, -5), radius: 6, material: grey() };
    assert_eq!(s.intersect(&Ray::new(p(0, 0, 0), p(0, 0, 1))), Some((1, 1)));
    // With a longer direction the parameter is finer: |d| = 1000 gives
    // (-5000 + ceil(sqrt(26 * 10^6))) / 10^6 = 100 / 10^6, i.e. 0.1 along the
    // unit ray, just above the exit at 0.0990.
    assert_eq!(s.intersect(&Ray::new(p(0, 0, 0), p(0, 0, 1000))), Some((100, 1_000_000)));
}

#[test]
fn unit_sphere_below_the_origin_is_hit_at_four() {
    let s = Sphere { center: p(0, 0, -5), radius: 1, material: grey() };
    assert_eq!(s.intersect(&Ray::new(p(0, 0, 0), p(0, 0, -1))), Some((4, 1)));
}
