//! Exact-arithmetic core of a path tracer.
//!
//! Geometry lives on a fixed-point integer lattice, so every intersection
//! decision is exact: ray parameters are fractions, compared by cross
//! multiplication. The crate holds the primitive intersections (triangle by
//! Moller-Trumbore, sphere, plane), an exact slab test for boxes, a rope
//! bounding volume hierarchy whose walk finds the same nearest hit as a scan
//! of all triangles, the scene's nearest-hit and shadow queries, Fresnel
//! weights by Schlick's approximation, the integrator's per-bounce decisions,
//! the progressive accumulation buffer, and the partition of rows among
//! workers. Shading in floating point is left to the caller.
pub mod vector;
pub mod algebra;
pub mod ray;
pub mod material;
pub mod distance;
pub mod triangle;
pub mod sphere;
pub mod plane;
pub mod aabb;
pub mod bvh;
pub mod scene;
pub mod fresnel;
pub mod path;
pub mod accum;
pub mod dispatch;
pub mod morton;
pub mod polygon;
