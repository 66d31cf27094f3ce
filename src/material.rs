//! Surface materials, with fixed-point parameters.
use vstd::prelude::*;

verus! {

/// A color or a per-channel coefficient, in fixed-point units.
#[derive(Clone, Copy, Debug, PartialEq, Eq, Structural)]
pub struct Color {
    pub r: u32,
    pub g: u32,
    pub b: u32,
}

/// How a surface responds to light.
#[derive(Clone, Copy, Debug, PartialEq, Eq, Structural)]
pub enum Material {
    /// An opaque surface: a mirror-like fraction `spec`, the rest diffuse in `color`.
    Conductor { color: Color, spec: u32 },
    /// A transparent medium between refractive indices `n1` (outside) and
    /// `n2` (inside), absorbing per channel by `absorbance`.
    Dielectric { absorbance: Color, n1: u32, n2: u32 },
    /// A light source of the given radiance.
    Emissive { radiance: Color },
}

impl Material {
    /// Opaque surfaces are seen from their front side only.
    pub open spec fn culls_backfaces(&self) -> bool {
        !(self is Dielectric)
    }

    pub fn is_opaque(&self) -> (r: bool)
        ensures
            r == self.culls_backfaces(),
    {
        match self {
            Material::Dielectric { .. } => false,
            _ => true,
        }
    }
}

} // verus!
