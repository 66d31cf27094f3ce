//! Splitting polygons of a mesh file into triangles.
use vstd::prelude::*;

verus! {

/// Splits a polygon, given by vertex indices in order, into a fan of
/// triangles around its first vertex: `(v0, v1, v2), (v0, v2, v3), ...`.
/// A polygon of fewer than three vertices gives no triangle.
pub fn fan_triangulate(indices: &Vec<usize>) -> (r: Vec<(usize, usize, usize)>)
    ensures
        indices@.len() < 3 ==> r@.len() == 0,
        indices@.len() >= 3 ==> r@.len() == indices@.len() - 2,
        forall|j: int|
            0 <= j < r@.len() ==> #[trigger] r@[j] == (indices@[0], indices@[j + 1], indices@[j + 2]),
{
    let mut tris: Vec<(usize, usize, usize)> = Vec::new();
    if indices.len() < 3 {
        return tris;
    }
    let anchor = indices[0];
    let mut k: usize = 2;
    while k < indices.len()
        invariant
            2 <= k <= indices@.len(),
            anchor == indices@[0],
            tris@.len() == k - 2,
            forall|j: int|
                0 <= j < tris@.len() ==> #[trigger] tris@[j] == (indices@[0], indices@[j + 1], indices@[j + 2]),
        decreases indices@.len() - k,
    {
        tris.push((anchor, indices[k - 1], indices[k]));
        k += 1;
    }
    tris
}

} // verus!
