//! A bounding volume hierarchy stored as a rope: a flat array of nodes in
//! depth-first order, each with the index to descend to and the index that
//! follows its subtree, walked by one loop without a stack.
use vstd::prelude::*;
use crate::aabb::{Aabb, between};
use crate::distance::{Distance, frac_le, lemma_frac_le_total, lemma_frac_le_trans};
use crate::ray::Ray;
use crate::triangle::{TRI_BOUND, Triangle, TriangleHit};
use crate::vector::vscale;

verus! {

/// `entry_index` of a leaf.
pub const LEAF: u32 = 0xffff_ffff;

/// A node of the rope. An inner node's children follow it (`entry_index` is
/// its own index plus one) and its box holds them all; a leaf holds the
/// triangle `shape_index`, and its box is not used. `exit_index` is the
/// first node after the subtree.
#[derive(Clone, Copy, Debug, PartialEq, Eq, Structural)]
pub struct Node {
    pub aabb: Aabb,
    pub entry_index: u32,
    pub exit_index: u32,
    pub shape_index: u32,
}

/// Why a node array is not a valid hierarchy over a triangle list.
#[derive(Clone, Copy, Debug, PartialEq, Eq, Structural)]
pub enum BvhError {
    /// A coordinate lies outside the lattice's limit.
    OutOfRange,
    /// A node's indices do not describe a subtree of the array.
    BadLink,
    /// A leaf's triangle is not inside the box of a node above it.
    NotContained,
    /// A triangle is held by two leaves.
    Duplicate,
    /// A triangle is held by no leaf.
    Missing,
}

/// A triangle mesh with its hierarchy.
pub struct Mesh {
    pub triangles: Vec<Triangle>,
    pub nodes: Vec<Node>,
}

pub open spec fn is_leaf(n: Node) -> bool {
    n.entry_index == LEAF
}

/// All three vertices of `t` lie in `b`.
pub open spec fn tri_in_box(t: Triangle, b: Aabb) -> bool {
    between(b.min@, t.p0@, b.max@) && between(b.min@, t.p1@, b.max@) && between(b.min@, t.p2@, b.max@)
}

/// Node `i`'s links are sound: the subtree is `i .. exit`, an inner node
/// descends to `i + 1`, a leaf holds an existing triangle.
pub open spec fn links_ok(nodes: Seq<Node>, m: int, i: int) -> bool {
    let n = nodes[i];
    &&& i < n.exit_index <= nodes.len()
    &&& is_leaf(n) ==> n.shape_index < m && n.exit_index == i + 1
    &&& !is_leaf(n) ==> n.entry_index == i + 1
}

/// Every leaf of node `i`'s subtree holds a triangle inside `i`'s box.
pub open spec fn contains_subtree(nodes: Seq<Node>, tris: Seq<Triangle>, i: int) -> bool {
    forall|j: int|
        i <= j < nodes[i].exit_index && #[trigger] is_leaf(nodes[j]) ==> tri_in_box(
            tris[nodes[j].shape_index as int],
            nodes[i].aabb,
        )
}

/// Triangle `t` is held by some leaf.
pub open spec fn covered(nodes: Seq<Node>, t: int) -> bool {
    covered_before(nodes, t, nodes.len() as int)
}

/// Triangle `t` is held by some leaf before index `k`.
pub open spec fn covered_before(nodes: Seq<Node>, t: int, k: int) -> bool {
    exists|j: int| 0 <= j < k && is_leaf(nodes[j]) && nodes[j].shape_index == t
}

/// `r` is a nearest hit of the ray among `tris`: `None` when no triangle is
/// hit, else a hit triangle whose parameter is at most that of every hit.
pub open spec fn is_nearest(tris: Seq<Triangle>, ray: Ray, r: Option<(usize, TriangleHit)>) -> bool {
    match r {
        None => forall|t: int| 0 <= t < tris.len() ==> (#[trigger] tris[t]).hit(ray) is None,
        Some(p) => {
            &&& p.0 < tris.len()
            &&& tris[p.0 as int].hit(ray) == Some(p.1@)
            &&& forall|t: int|
                0 <= t < tris.len() && (#[trigger] tris[t]).hit(ray) is Some ==> frac_le(
                    p.1.t as int,
                    p.1.den as int,
                    tris[t].hit(ray).unwrap().0,
                    tris[t].hit(ray).unwrap().3,
                )
        },
    }
}

/// A point of the triangle on the ray lies in any box holding the triangle.
pub proof fn lemma_hit_in_box(t: Triangle, b: Aabb, ray: Ray)
    requires
        tri_in_box(t, b),
        t.hit(ray) is Some,
    ensures
        b.reached(ray),
{
    t.lemma_hit_iff_barycentric(ray, 0, 0, 0, 0);
    let h = t.hit(ray).unwrap();
    let (k, tk, uk, vk) = (h.3, h.0, h.1, h.2);
    let p = ray.scaled_point(k, tk);
    lemma_convex(k, uk, vk, ray.origin@.0, ray.direction@.0, tk, t.p0@.0, t.p1@.0, t.p2@.0, b.min@.0, b.max@.0);
    lemma_convex(k, uk, vk, ray.origin@.1, ray.direction@.1, tk, t.p0@.1, t.p1@.1, t.p2@.1, b.min@.1, b.max@.1);
    lemma_convex(k, uk, vk, ray.origin@.2, ray.direction@.2, tk, t.p0@.2, t.p1@.2, t.p2@.2, b.min@.2, b.max@.2);
    assert(between(vscale(k, b.min@), p, vscale(k, b.max@)));
    assert(b.reached_at(ray, k, tk));
}

/// A convex combination of values in [mn, mx] lies in [mn, mx] (one coordinate).
proof fn lemma_convex(k: int, uk: int, vk: int, o: int, d: int, tk: int, a: int, b: int, c: int, mn: int, mx: int)
    requires
        k > 0,
        uk >= 0,
        vk >= 0,
        uk + vk <= k,
        k * (o - a) + tk * d == uk * (b - a) + vk * (c - a),
        mn <= a <= mx,
        mn <= b <= mx,
        mn <= c <= mx,
    ensures
        k * mn <= k * o + tk * d <= k * mx,
{
    let w = k - uk - vk;
    assert(k * o + tk * d == w * a + uk * b + vk * c) by (nonlinear_arith)
        requires
            k * (o - a) + tk * d == uk * (b - a) + vk * (c - a),
            w == k - uk - vk,
    ;
    assert(w * mn <= w * a <= w * mx) by (nonlinear_arith)
        requires
            w >= 0,
            mn <= a <= mx,
    ;
    assert(uk * mn <= uk * b <= uk * mx) by (nonlinear_arith)
        requires
            uk >= 0,
            mn <= b <= mx,
    ;
    assert(vk * mn <= vk * c <= vk * mx) by (nonlinear_arith)
        requires
            vk >= 0,
            mn <= c <= mx,
    ;
    assert(w * mn + uk * mn + vk * mn == k * mn) by (nonlinear_arith)
        requires
            w == k - uk - vk,
    ;
    assert(w * mx + uk * mx + vk * mx == k * mx) by (nonlinear_arith)
        requires
            w == k - uk - vk,
    ;
}

/// Whether lo <= p <= hi in every coordinate.
fn point_between(lo: &crate::vector::Point, p: &crate::vector::Point, hi: &crate::vector::Point) -> (r: bool)
    ensures
        r == between(lo@, p@, hi@),
{
    lo.x <= p.x && p.x <= hi.x && lo.y <= p.y && p.y <= hi.y && lo.z <= p.z && p.z <= hi.z
}

fn triangle_in_box(t: &Triangle, b: &Aabb) -> (r: bool)
    ensures
        r == tri_in_box(*t, *b),
{
    point_between(&b.min, &t.p0, &b.max) && point_between(&b.min, &t.p1, &b.max) && point_between(
        &b.min,
        &t.p2,
        &b.max,
    )
}

/// All coordinates are within the lattice's limit.
pub open spec fn coords_ok(tris: Seq<Triangle>, nodes: Seq<Node>) -> bool {
    &&& forall|t: int| 0 <= t < tris.len() ==> (#[trigger] tris[t]).wf()
    &&& forall|i: int| 0 <= i < nodes.len() && !is_leaf(nodes[i]) ==> (#[trigger] nodes[i]).aabb.wf()
}

/// The nodes form a rope over `m` triangles.
pub open spec fn all_links_ok(nodes: Seq<Node>, m: int) -> bool {
    &&& nodes.len() < LEAF
    &&& forall|i: int| 0 <= i < nodes.len() ==> #[trigger] links_ok(nodes, m, i)
}

pub open spec fn all_contained(nodes: Seq<Node>, tris: Seq<Triangle>) -> bool {
    forall|i: int| 0 <= i < nodes.len() && !is_leaf(nodes[i]) ==> #[trigger] contains_subtree(nodes, tris, i)
}

pub open spec fn all_covered(nodes: Seq<Node>, m: int) -> bool {
    forall|t: int| 0 <= t < m ==> #[trigger] covered(nodes, t)
}

/// No two leaves before index `k` hold the same triangle.
pub open spec fn distinct_before(nodes: Seq<Node>, k: int) -> bool {
    forall|w1: int, w2: int|
        #![trigger is_leaf(nodes[w1]), is_leaf(nodes[w2])]
        0 <= w1 < w2 < k && is_leaf(nodes[w1]) && is_leaf(nodes[w2]) ==> nodes[w1].shape_index
            != nodes[w2].shape_index
}

/// No two leaves hold the same triangle.
pub open spec fn all_distinct(nodes: Seq<Node>) -> bool {
    distinct_before(nodes, nodes.len() as int)
}

impl Mesh {
    pub open spec fn wf(&self) -> bool {
        &&& coords_ok(self.triangles@, self.nodes@)
        &&& all_links_ok(self.nodes@, self.triangles@.len() as int)
        &&& all_contained(self.nodes@, self.triangles@)
        &&& all_distinct(self.nodes@)
        &&& all_covered(self.nodes@, self.triangles@.len() as int)
    }

    /// Checks that `nodes` is a rope hierarchy over `triangles`, in this
    /// order: coordinates, links, containment, each triangle in at most one
    /// leaf, each triangle in some leaf.
    pub fn new(triangles: Vec<Triangle>, nodes: Vec<Node>) -> (r: Result<Mesh, BvhError>)
        ensures
            r matches Ok(mesh) ==> mesh.wf() && mesh.triangles@ == triangles@ && mesh.nodes@ == nodes@,
            r is Ok <==> (coords_ok(triangles@, nodes@) && all_links_ok(nodes@, triangles@.len() as int)
                && all_contained(nodes@, triangles@) && all_distinct(nodes@) && all_covered(
                nodes@,
                triangles@.len() as int,
            )),
            r == Err::<Mesh, BvhError>(BvhError::OutOfRange) <==> !coords_ok(triangles@, nodes@),
            r == Err::<Mesh, BvhError>(BvhError::BadLink) <==> (coords_ok(triangles@, nodes@) && !all_links_ok(
                nodes@,
                triangles@.len() as int,
            )),
            r == Err::<Mesh, BvhError>(BvhError::NotContained) <==> (coords_ok(triangles@, nodes@)
                && all_links_ok(nodes@, triangles@.len() as int) && !all_contained(nodes@, triangles@)),
            r == Err::<Mesh, BvhError>(BvhError::Duplicate) <==> (coords_ok(triangles@, nodes@)
                && all_links_ok(nodes@, triangles@.len() as int) && all_contained(nodes@, triangles@)
                && !all_distinct(nodes@)),
            r == Err::<Mesh, BvhError>(BvhError::Missing) <==> (coords_ok(triangles@, nodes@)
                && all_links_ok(nodes@, triangles@.len() as int) && all_contained(nodes@, triangles@)
                && all_distinct(nodes@) && !all_covered(nodes@, triangles@.len() as int)),
    {
        let m = triangles.len();
        let n = nodes.len();
        let mut t: usize = 0;
        while t < m
            invariant
                t <= m,
                m == triangles.len(),
                forall|u: int| 0 <= u < t ==> (#[trigger] triangles@[u]).wf(),
            decreases m - t,
        {
            let tri = &triangles[t];
            if !(tri.p0.is_inside_limit() && tri.p1.is_inside_limit() && tri.p2.is_inside_limit()) {
                return Err(BvhError::OutOfRange);
            }
            t += 1;
        }
        let mut i: usize = 0;
        while i < n
            invariant
                i <= n,
                n == nodes.len(),
                m == triangles.len(),
                forall|u: int| 0 <= u < m ==> (#[trigger] triangles@[u]).wf(),
                forall|u: int| 0 <= u < i && !is_leaf(nodes@[u]) ==> (#[trigger] nodes@[u]).aabb.wf(),
            decreases n - i,
        {
            let b = &nodes[i].aabb;
            if nodes[i].entry_index != LEAF && !(b.min.is_inside_limit() && b.max.is_inside_limit()) {
                return Err(BvhError::OutOfRange);
            }
            i += 1;
        }
        if n >= LEAF as usize {
            return Err(BvhError::BadLink);
        }
        let mut i: usize = 0;
        while i < n
            invariant
                coords_ok(triangles@, nodes@),
                i <= n,
                n == nodes.len(),
                n < LEAF,
                m == triangles.len(),
                forall|u: int| 0 <= u < i ==> #[trigger] links_ok(nodes@, m as int, u),
            decreases n - i,
        {
            let node = &nodes[i];
            let exit = node.exit_index as usize;
            if !(i < exit && exit <= n) || (node.entry_index == LEAF && (node.shape_index as usize >= m || exit != i + 1))
                || (node.entry_index != LEAF && node.entry_index as usize != i + 1) {
                proof {
                    assert(!links_ok(nodes@, m as int, i as int));
                }
                return Err(BvhError::BadLink);
            }
            i += 1;
        }
        let mut i: usize = 0;
        while i < n
            invariant
                coords_ok(triangles@, nodes@),
                i <= n,
                n == nodes.len(),
                m == triangles.len(),
                all_links_ok(nodes@, m as int),
                forall|u: int| 0 <= u < i && !is_leaf(nodes@[u]) ==> #[trigger] contains_subtree(nodes@, triangles@, u),
            decreases n - i,
        {
            assert(links_ok(nodes@, m as int, i as int));
            if nodes[i].entry_index == LEAF {
                i += 1;
                continue;
            }
            let exit = nodes[i].exit_index as usize;
            let mut j: usize = i;
            while j < exit
                invariant
                coords_ok(triangles@, nodes@),
                    i <= j <= exit <= n,
                    exit == nodes@[i as int].exit_index,
                    !is_leaf(nodes@[i as int]),
                    n == nodes.len(),
                    m == triangles.len(),
                    all_links_ok(nodes@, m as int),
                    forall|w: int|
                        i <= w < j && #[trigger] is_leaf(nodes@[w]) ==> tri_in_box(
                            triangles@[nodes@[w].shape_index as int],
                            nodes@[i as int].aabb,
                        ),
                decreases exit - j,
            {
                if nodes[j].entry_index == LEAF {
                    assert(links_ok(nodes@, m as int, j as int));
                    let shape = nodes[j].shape_index as usize;
                    if !triangle_in_box(&triangles[shape], &nodes[i].aabb) {
                        proof {
                            assert(!contains_subtree(nodes@, triangles@, i as int));
                        }
                        return Err(BvhError::NotContained);
                    }
                }
                j += 1;
            }
            i += 1;
        }
        assert(all_contained(nodes@, triangles@));
        let mut seen: Vec<bool> = Vec::new();
        let mut t: usize = 0;
        while t < m
            invariant
                coords_ok(triangles@, nodes@),
                t <= m,
                seen@.len() == t,
                all_links_ok(nodes@, m as int),
                all_contained(nodes@, triangles@),
                m == triangles.len(),
                forall|u: int| 0 <= u < t ==> !(#[trigger] seen@[u]),
            decreases m - t,
        {
            seen.push(false);
            t += 1;
        }
        let mut j: usize = 0;
        while j < n
            invariant
                coords_ok(triangles@, nodes@),
                j <= n,
                n == nodes.len(),
                m == triangles.len(),
                seen@.len() == m,
                all_links_ok(nodes@, m as int),
                all_contained(nodes@, triangles@),
                forall|u: int| 0 <= u < m ==> (#[trigger] seen@[u] <==> covered_before(nodes@, u, j as int)),
                distinct_before(nodes@, j as int),
            decreases n - j,
        {
            if nodes[j].entry_index == LEAF {
                assert(links_ok(nodes@, m as int, j as int));
                let shape = nodes[j].shape_index as usize;
                if seen[shape] {
                    proof {
                        assert(covered_before(nodes@, shape as int, j as int));
                        let w = choose|w: int|
                            0 <= w < j && is_leaf(nodes@[w]) && nodes@[w].shape_index == shape;
                        assert(is_leaf(nodes@[w]) && is_leaf(nodes@[j as int]));
                        assert(!all_distinct(nodes@));
                    }
                    return Err(BvhError::Duplicate);
                }
                proof {
                    assert forall|w1: int, w2: int|
                        #![trigger is_leaf(nodes@[w1]), is_leaf(nodes@[w2])]
                        0 <= w1 < w2 < j + 1 && is_leaf(nodes@[w1]) && is_leaf(nodes@[w2]) implies nodes@[w1].shape_index
                            != nodes@[w2].shape_index by {
                        if w2 == j && nodes@[w1].shape_index == shape {
                            assert(covered_before(nodes@, shape as int, j as int));
                        }
                    }
                }
                seen.set(shape, true);
            } else {
                proof {
                    assert forall|w1: int, w2: int|
                        #![trigger is_leaf(nodes@[w1]), is_leaf(nodes@[w2])]
                        0 <= w1 < w2 < j + 1 && is_leaf(nodes@[w1]) && is_leaf(nodes@[w2]) implies nodes@[w1].shape_index
                            != nodes@[w2].shape_index by {}
                }
            }
            proof {
                assert forall|u: int| 0 <= u < m implies (#[trigger] seen@[u] <==> covered_before(
                    nodes@,
                    u,
                    j + 1,
                )) by {
                    if is_leaf(nodes@[j as int]) && nodes@[j as int].shape_index == u {
                        assert(covered_before(nodes@, u, j + 1));
                    } else {
                        if covered_before(nodes@, u, j + 1) {
                            let w = choose|w: int|
                                0 <= w < j + 1 && is_leaf(nodes@[w]) && nodes@[w].shape_index == u;
                            assert(covered_before(nodes@, u, j as int));
                        }
                        if covered_before(nodes@, u, j as int) {
                            let w = choose|w: int|
                                0 <= w < j && is_leaf(nodes@[w]) && nodes@[w].shape_index == u;
                            assert(covered_before(nodes@, u, j + 1));
                        }
                    }
                }
            }
            j += 1;
        }
        let mut t: usize = 0;
        while t < m
            invariant
                coords_ok(triangles@, nodes@),
                t <= m,
                n == nodes.len(),
                seen@.len() == m,
                m == triangles.len(),
                all_links_ok(nodes@, m as int),
                all_contained(nodes@, triangles@),
                forall|u: int| 0 <= u < m ==> (#[trigger] seen@[u] <==> covered(nodes@, u)),
                forall|u: int| 0 <= u < t ==> #[trigger] covered(nodes@, u),
                all_distinct(nodes@),
            decreases m - t,
        {
            if !seen[t] {
                proof {
                    assert(!covered(nodes@, t as int));
                }
                return Err(BvhError::Missing);
            }
            t += 1;
        }
        Ok(Mesh { triangles, nodes })
    }
}

/// Whether hit `a` is at most as far along the ray as hit `b`.
fn not_farther(a: &TriangleHit, b: &TriangleHit) -> (r: bool)
    requires
        0 < a.t <= TRI_BOUND,
        0 < a.den <= TRI_BOUND,
        0 < b.t <= TRI_BOUND,
        0 < b.den <= TRI_BOUND,
    ensures
        r == frac_le(a.t as int, a.den as int, b.t as int, b.den as int),
{
    Distance { num: a.t, den: a.den }.le(&Distance { num: b.t, den: b.den })
}

/// The hit is within the bounds that intersection guarantees.
pub open spec fn hit_bounded(h: TriangleHit) -> bool {
    0 < h.t <= TRI_BOUND && 0 < h.den <= TRI_BOUND
}

/// Nearest hit among the triangles, by testing each one.
pub fn nearest_by_scan(triangles: &Vec<Triangle>, ray: &Ray) -> (r: Option<(usize, TriangleHit)>)
    requires
        forall|t: int| 0 <= t < triangles@.len() ==> (#[trigger] triangles@[t]).wf(),
        ray.wf(),
    ensures
        is_nearest(triangles@, *ray, r),
        r matches Some(p) ==> hit_bounded(p.1),
{
    let mut best: Option<(usize, TriangleHit)> = None;
    let mut t: usize = 0;
    while t < triangles.len()
        invariant
            t <= triangles@.len(),
            forall|u: int| 0 <= u < triangles@.len() ==> (#[trigger] triangles@[u]).wf(),
            ray.wf(),
            is_nearest(triangles@.take(t as int), *ray, best),
            best matches Some(p) ==> hit_bounded(p.1),
        decreases triangles@.len() - t,
    {
        let ghost before = triangles@.take(t as int);
        if let Some(h) = triangles[t].intersect(ray) {
            let closer = match best {
                None => true,
                Some(b) => !not_farther(&b.1, &h),
            };
            if closer {
                proof {
                    if let Some(b) = best {
                        lemma_frac_le_total(h.t as int, h.den as int, b.1.t as int, b.1.den as int);
                        assert forall|u: int|
                            0 <= u < t && (#[trigger] before[u]).hit(*ray) is Some implies frac_le(
                            h.t as int,
                            h.den as int,
                            before[u].hit(*ray).unwrap().0,
                            before[u].hit(*ray).unwrap().3,
                        ) by {
                            before[u].lemma_hit_positive(*ray);
                            lemma_frac_le_trans(
                                h.t as int,
                                h.den as int,
                                b.1.t as int,
                                b.1.den as int,
                                before[u].hit(*ray).unwrap().0,
                                before[u].hit(*ray).unwrap().3,
                            );
                        }
                    }
                }
                best = Some((t, h));
            }
        }
        proof {
            let after = triangles@.take(t + 1);
            assert forall|u: int| 0 <= u < t implies after[u] == before[u] by {}
            assert(after[t as int] == triangles@[t as int]);
        }
        t += 1;
    }
    proof {
        assert(triangles@.take(triangles@.len() as int) == triangles@);
    }
    best
}

/// `best` is a nearest hit among the triangles of the leaves before `c`.
pub open spec fn nearest_before(nodes: Seq<Node>, tris: Seq<Triangle>, ray: Ray, c: int, best: Option<(usize, TriangleHit)>) -> bool {
    match best {
        None => forall|j: int|
            0 <= j < c && #[trigger] is_leaf(nodes[j]) ==> tris[nodes[j].shape_index as int].hit(ray) is None,
        Some(p) => {
            &&& p.0 < tris.len()
            &&& tris[p.0 as int].hit(ray) == Some(p.1@)
            &&& forall|j: int|
                0 <= j < c && #[trigger] is_leaf(nodes[j]) && tris[nodes[j].shape_index as int].hit(ray) is Some
                    ==> frac_le(
                    p.1.t as int,
                    p.1.den as int,
                    tris[nodes[j].shape_index as int].hit(ray).unwrap().0,
                    tris[nodes[j].shape_index as int].hit(ray).unwrap().3,
                )
        },
    }
}

impl Mesh {
    /// Nearest hit of the ray among the mesh's triangles, by walking the rope:
    /// an inner node whose box the ray misses is skipped with its whole
    /// subtree, a leaf's triangle is tested.
    pub fn intersect(&self, ray: &Ray) -> (r: Option<(usize, TriangleHit)>)
        requires
            self.wf(),
            ray.wf(),
        ensures
            is_nearest(self.triangles@, *ray, r),
            r matches Some(p) ==> hit_bounded(p.1),
    {
        let ghost nodes = self.nodes@;
        let ghost tris = self.triangles@;
        let ghost m = tris.len() as int;
        let n = self.nodes.len();
        let mut best: Option<(usize, TriangleHit)> = None;
        let mut cursor: usize = 0;
        while cursor < n
            invariant
                self.wf(),
                ray.wf(),
                nodes == self.nodes@,
                tris == self.triangles@,
                m == tris.len(),
                n == nodes.len(),
                cursor <= n,
                nearest_before(nodes, tris, *ray, cursor as int, best),
                best matches Some(p) ==> hit_bounded(p.1),
            decreases n - cursor,
        {
            let node = self.nodes[cursor];
            proof {
                assert(links_ok(nodes, m, cursor as int));
            }
            let exit = node.exit_index as usize;
            if node.entry_index == LEAF {
                let shape = node.shape_index as usize;
                if let Some(h) = self.triangles[shape].intersect(ray) {
                    let closer = match best {
                        None => true,
                        Some(b) => !not_farther(&b.1, &h),
                    };
                    if closer {
                        proof {
                            if let Some(b) = best {
                                lemma_frac_le_total(h.t as int, h.den as int, b.1.t as int, b.1.den as int);
                                assert forall|j: int|
                                    0 <= j < cursor && #[trigger] is_leaf(nodes[j]) && tris[nodes[j].shape_index as int].hit(
                                        *ray,
                                    ) is Some implies frac_le(
                                    h.t as int,
                                    h.den as int,
                                    tris[nodes[j].shape_index as int].hit(*ray).unwrap().0,
                                    tris[nodes[j].shape_index as int].hit(*ray).unwrap().3,
                                ) by {
                                    tris[nodes[j].shape_index as int].lemma_hit_positive(*ray);
                                    lemma_frac_le_trans(
                                        h.t as int,
                                        h.den as int,
                                        b.1.t as int,
                                        b.1.den as int,
                                        tris[nodes[j].shape_index as int].hit(*ray).unwrap().0,
                                        tris[nodes[j].shape_index as int].hit(*ray).unwrap().3,
                                    );
                                }
                            }
                        }
                        best = Some((shape, h));
                    }
                }
                cursor = exit;
            } else {
                proof {
                    assert(contains_subtree(nodes, tris, cursor as int));
                    assert(node.aabb.wf());
                }
                if node.aabb.is_hit(ray) {
                    cursor = cursor + 1;
                } else {
                    proof {
                        assert forall|j: int|
                            cursor <= j < exit && #[trigger] is_leaf(nodes[j]) implies tris[nodes[j].shape_index as int].hit(
                            *ray,
                        ) is None by {
                            if tris[nodes[j].shape_index as int].hit(*ray) is Some {
                                lemma_hit_in_box(tris[nodes[j].shape_index as int], node.aabb, *ray);
                            }
                        }
                    }
                    cursor = exit;
                }
            }
        }
        proof {
            match best {
                None => {
                    assert forall|t: int| 0 <= t < m implies (#[trigger] tris[t]).hit(*ray) is None by {
                        assert(covered(nodes, t));
                        let j = choose|j: int| 0 <= j < n && is_leaf(nodes[j]) && nodes[j].shape_index == t;
                    }
                },
                Some(p) => {
                    assert forall|t: int| 0 <= t < m && (#[trigger] tris[t]).hit(*ray) is Some implies frac_le(
                        p.1.t as int,
                        p.1.den as int,
                        tris[t].hit(*ray).unwrap().0,
                        tris[t].hit(*ray).unwrap().3,
                    ) by {
                        assert(covered(nodes, t));
                        let j = choose|j: int| 0 <= j < n && is_leaf(nodes[j]) && nodes[j].shape_index == t;
                    }
                },
            }
        }
        best
    }
}

/// Two nearest hits among the same triangles lie at the same distance: a
/// walk of the hierarchy finds what a scan of every triangle finds, up to
/// which of several equally near triangles is named.
pub proof fn lemma_nearest_distance_unique(
    tris: Seq<Triangle>,
    ray: Ray,
    r1: Option<(usize, TriangleHit)>,
    r2: Option<(usize, TriangleHit)>,
)
    requires
        is_nearest(tris, ray, r1),
        is_nearest(tris, ray, r2),
    ensures
        r1 is None <==> r2 is None,
        r1 matches Some(p1) ==> r2 matches Some(p2) ==> p1.1.t * p2.1.den == p2.1.t * p1.1.den,
{
    if let Some(p1) = r1 {
        assert(tris[p1.0 as int].hit(ray) is Some);
        if let Some(p2) = r2 {
            assert(tris[p2.0 as int].hit(ray) is Some);
            assert(frac_le(p1.1.t as int, p1.1.den as int, p2.1.t as int, p2.1.den as int));
            assert(frac_le(p2.1.t as int, p2.1.den as int, p1.1.t as int, p1.1.den as int));
        }
    }
    if let Some(p2) = r2 {
        assert(tris[p2.0 as int].hit(ray) is Some);
    }
}

} // verus!
