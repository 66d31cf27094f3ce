use pathtracer::aabb::Aabb;
use pathtracer::bvh::{nearest_by_scan, BvhError, Mesh, Node, LEAF};
use pathtracer::material::{Color, Material};
use pathtracer::plane::Plane;
use pathtracer::ray::Ray;
use pathtracer::scene::{Scene, Shape};
use pathtracer::sphere::Sphere;
use pathtracer::triangle::Triangle;
use pathtracer::vector::Point;

fn p(x: i64, y: i64, z: i64) -> Point {
    Point::new(x, y, z)
}

fn grey() -> Material {
    Material::Conductor { color: Color { r: 800, g: 800, b: 800 }, spec: 0 }
}

fn flat(z: i64) -> Triangle {
    Triangle {
        p0: p(0, 0, z),
        p1: p(4, 0, z),
        p2: p(0, 4, z),
        n0: p(0, 0, 1),
        n1: p(0, 0, 1),
        n2: p(0, 0, 1),
        material: grey(),
    }
}

fn boxed(min: Point, max: Point) -> Aabb {
    Aabb { min, max }
}

fn leaf(b: Aabb, exit: u32, shape: u32) -> Node {
    Node { aabb: b, entry_index: LEAF, exit_index: exit, shape_index: shape }
}

fn two_level() -> (Vec<Triangle>, Vec<Node>) {
    let tris = vec![flat(0), flat(-5)];
    let nodes = vec![
        Node { aabb: boxed(p(0, 0, -5), p(4, 4, 0)), entry_index: 1, exit_index: 3, shape_index: 0 },
        leaf(boxed(p(0, 0, 0), p(4, 4, 0)), 2, 0),
        leaf(boxed(p(0, 0, -5), p(4, 4, -5)), 3, 1),
    ];
    (tris, nodes)
}

#[test]
fn box_test_is_exact() {
    let b = boxed(p(0, 0, 0), p(2, 2, 2));
    assert!(b.is_hit(&Ray::new(p(1, 1, 5), p(0, 0, -1))));
    assert!(!b.is_hit(&Ray::new(p(1, 1, 5), p(0, 0, 1))));
    assert!(!b.is_hit(&Ray::new(p(3, 1, 5), p(0, 0, -1))));
    // Grazing the edge x = 2 counts.
    assert!(b.is_hit(&Ray::new(p(2, 1, 5), p(0, 0, -1))));
    // Diagonal entry, and a diagonal that passes beside the box.
    assert!(b.is_hit(&Ray::new(p(-1, -1, -1), p(1, 1, 1))));
    assert!(b.is_hit(&Ray::new(p(-1, 4, 1), p(1, -1, 0))));
    assert!(!b.is_hit(&Ray::new(p(-4, 1, 1), p(1, 1, 0))));
    // Origin inside, zero direction.
    assert!(b.is_hit(&Ray::new(p(1, 1, 1), p(0, 0, 0))));
    assert!(!b.is_hit(&Ray::new(p(5, 1, 1), p(0, 0, 0))));
}

#[test]
fn traversal_finds_nearest_like_scan() {
    let (tris, nodes) = two_level();
    let mesh = Mesh::new(tris.clone(), nodes).unwrap();
    let ray = Ray::new(p(1, 1, 5), p(0, 0, -1));
    let walked = mesh.intersect(&ray).unwrap();
    let scanned = nearest_by_scan(&tris, &ray).unwrap();
    assert_eq!(walked.0, 0);
    assert_eq!(walked.1.t * scanned.1.den, scanned.1.t * walked.1.den);
    assert_eq!(walked.1.t, 5 * walked.1.den);
}

#[test]
fn traversal_and_scan_agree_on_a_battery_of_rays() {
    let (tris, nodes) = two_level();
    let mesh = Mesh::new(tris.clone(), nodes).unwrap();
    for x in -2..7 {
        for y in -2..7 {
            for (oz, dz) in [(5, -1), (-8, 1), (-2, 1), (-2, -1), (3, 1)] {
                for dx in -1..2 {
                    let ray = Ray::new(p(x, y, oz), p(dx, 0, dz));
                    let walked = mesh.intersect(&ray);
                    let scanned = nearest_by_scan(&tris, &ray);
                    match (walked, scanned) {
                        (None, None) => {}
                        (Some(a), Some(b)) => assert_eq!(a.1.t * b.1.den, b.1.t * a.1.den),
                        _ => panic!("traversal and scan disagree"),
                    }
                }
            }
        }
    }
}

#[test]
fn traversal_of_missing_ray_is_none() {
    let (tris, nodes) = two_level();
    let mesh = Mesh::new(tris, nodes).unwrap();
    assert!(mesh.intersect(&Ray::new(p(100, 100, 5), p(0, 0, -1))).is_none());
}

#[test]
fn empty_hierarchy_reports_no_hit() {
    let mesh = Mesh::new(vec![], vec![]).unwrap();
    assert!(mesh.intersect(&Ray::new(p(0, 0, 5), p(0, 0, -1))).is_none());
}

#[test]
fn invalid_hierarchies_are_rejected() {
    let (tris, mut nodes) = two_level();
    nodes[1].exit_index = 1;
    assert_eq!(Mesh::new(tris, nodes).err(), Some(BvhError::BadLink));

    let (tris, mut nodes) = two_level();
    nodes[0].aabb = boxed(p(0, 0, -1), p(4, 4, 0));
    assert_eq!(Mesh::new(tris, nodes).err(), Some(BvhError::NotContained));

    let (tris, mut nodes) = two_level();
    nodes[2].shape_index = 0;
    nodes[2].aabb = boxed(p(0, 0, 0), p(4, 4, 0));
    assert_eq!(Mesh::new(tris, nodes).err(), Some(BvhError::Duplicate));

    let (tris, _) = two_level();
    let one_leaf = vec![leaf(boxed(p(0, 0, 0), p(4, 4, 0)), 1, 0)];
    assert_eq!(Mesh::new(tris, one_leaf).err(), Some(BvhError::Missing));

    let (mut tris, nodes) = two_level();
    tris[0].p1 = p(70_000, 0, 0);
    assert_eq!(Mesh::new(tris, nodes).err(), Some(BvhError::OutOfRange));
}

fn scene(with_mesh: bool) -> Scene {
    let mesh = if with_mesh {
        let (tris, nodes) = two_level();
        Mesh::new(tris, nodes).unwrap()
    } else {
        Mesh::new(vec![], vec![]).unwrap()
    };
    Scene::new(
        vec![],
        vec![Plane { p0: p(0, -10, 0), normal: p(0, 1, 0), material: grey() }],
        vec![Sphere { center: p(0, 3, 0), radius: 1, material: grey() }],
        mesh,
    )
    .unwrap()
}

#[test]
fn scene_nearest_over_all_kinds() {
    let s = scene(true);
    let down = s.nearest_intersection(&Ray::new(p(0, 10, 0), p(0, -1, 0))).unwrap();
    assert_eq!(down.shape, Shape::Sphere(0));
    assert_eq!((down.distance.num, down.distance.den), (6, 1));
    let at_mesh = s.nearest_intersection(&Ray::new(p(1, 1, 5), p(0, 0, -1))).unwrap();
    assert_eq!(at_mesh.shape, Shape::Triangle(0));
    let side = s.nearest_intersection(&Ray::new(p(50, 0, 0), p(0, -1, 0))).unwrap();
    assert_eq!(side.shape, Shape::Plane(0));
    assert_eq!((side.distance.num, side.distance.den), (10, 1));
}

#[test]
fn empty_scene_has_no_hit() {
    let s = Scene::new(vec![], vec![], vec![], Mesh::new(vec![], vec![]).unwrap()).unwrap();
    assert!(s.nearest_intersection(&Ray::new(p(0, 0, 0), p(0, 0, 1))).is_none());
    assert!(scene(false).nearest_intersection(&Ray::new(p(0, 0, 0), p(0, 1, 0))).is_some());
}

#[test]
fn scene_rejects_primitives_off_the_lattice() {
    let empty = || Mesh::new(vec![], vec![]).unwrap();
    let far = Sphere { center: p(0, 70_000, 0), radius: 1, material: grey() };
    assert!(Scene::new(vec![], vec![], vec![far], empty()).is_none());
    let flat = Sphere { center: p(0, 0, 0), radius: 0, material: grey() };
    assert!(Scene::new(vec![], vec![], vec![flat], empty()).is_none());
    let tilted = Plane { p0: p(0, 0, 0), normal: p(0, -70_000, 0), material: grey() };
    assert!(Scene::new(vec![], vec![tilted], vec![], empty()).is_none());
}

#[test]
fn shadow_segment_toward_light_above_a_sphere() {
    let light = Triangle {
        p0: p(-2, 10, -2),
        p1: p(2, 10, -2),
        p2: p(0, 10, 2),
        n0: p(0, -1, 0),
        n1: p(0, -1, 0),
        n2: p(0, -1, 0),
        material: Material::Emissive { radiance: Color { r: 1000, g: 1000, b: 1000 } },
    };
    let nodes = vec![Node {
        aabb: boxed(p(0, 0, 0), p(0, 0, 0)),
        entry_index: LEAF,
        exit_index: 1,
        shape_index: 0,
    }];
    let mesh = Mesh::new(vec![light], nodes).unwrap();
    let ball = Sphere { center: p(0, 3, 0), radius: 2, material: grey() };
    let s = Scene::new(vec![], vec![], vec![ball], mesh).unwrap();
    // From the top of the sphere to the light: nothing in between; the
    // light itself, at the far end, does not block.
    assert!(s.unoccluded(p(0, 5, 0), p(0, 10, 0)));
    // From below the sphere the sphere blocks the light.
    assert!(!s.unoccluded(p(0, 0, 0), p(0, 10, 0)));
    // Without the sphere the light is seen from below too.
    let open = Scene::new(vec![], vec![], vec![], Mesh::new(vec![], vec![]).unwrap()).unwrap();
    assert!(open.unoccluded(p(0, 0, 0), p(0, 10, 0)));
}

#[test]
fn one_triangle_in_two_leaves_is_rejected() {
    let b = boxed(p(0, 0, 0), p(4, 4, 0));
    let nodes = vec![
        Node { aabb: b, entry_index: 1, exit_index: 3, shape_index: 0 },
        leaf(b, 2, 0),
        leaf(b, 3, 0),
    ];
    assert_eq!(Mesh::new(vec![flat(0)], nodes).err(), Some(BvhError::Duplicate));
}

#[test]
fn normals_at_hits() {
    let s = scene(true);
    // Sphere (0, 3, 0) r = 1 hit from above at (0, 4, 0): den * (point - centre) = (0, 1, 0).
    let r = Ray::new(p(0, 10, 0), p(0, -1, 0));
    let h = s.nearest_intersection(&r).unwrap();
    let n = s.normal_at(&r, &h);
    assert_eq!((n.x, n.y, n.z), (0, 1, 0));
    // With a longer direction the normal scales by the denominator.
    let r = Ray::new(p(0, 10, 0), p(0, -3, 0));
    let h = s.nearest_intersection(&r).unwrap();
    assert_eq!((h.distance.num, h.distance.den), (18, 9));
    let n = s.normal_at(&r, &h);
    assert_eq!((n.x, n.y, n.z), (0, 9, 0));
    // Plane: its own normal.
    let r = Ray::new(p(50, 0, 0), p(0, -1, 0));
    let h = s.nearest_intersection(&r).unwrap();
    let n = s.normal_at(&r, &h);
    assert_eq!((n.x, n.y, n.z), (0, 1, 0));
}

#[test]
fn triangle_normal_interpolates_vertex_normals() {
    let mut t = flat(0);
    t.n0 = p(0, 0, 4);
    t.n1 = p(4, 0, 4);
    t.n2 = p(0, 4, 4);
    let nodes = vec![leaf(boxed(p(0, 0, 0), p(0, 0, 0)), 1, 0)];
    let s = Scene::new(vec![], vec![], vec![], Mesh::new(vec![t], nodes).unwrap()).unwrap();
    let r = Ray::new(p(1, 1, 5), p(0, 0, -1));
    let h = s.nearest_intersection(&r).unwrap();
    // u = v = 1/4 over den = 16: 8 * n0 + 4 * n1 + 4 * n2.
    assert_eq!((h.u, h.v, h.distance.den), (4, 4, 16));
    let n = s.normal_at(&r, &h);
    assert_eq!((n.x, n.y, n.z), (16, 16, 64));
}
