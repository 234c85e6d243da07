//! The kinds of lights and materials.

use vstd::prelude::*;

verus! {

/// Light kinds.
#[derive(Debug, Clone, Copy, PartialEq, Eq, Structural)]
pub enum LightType {
    /// Parallel rays, like the sun.
    Directional,
    /// Omni-directional, with attenuation.
    Point,
    /// Cone-shaped.
    Spot,
    /// Global illumination.
    Ambient,
}

/// Material shading models.
#[derive(Debug, Clone, Copy, PartialEq, Eq, Structural)]
pub enum MaterialType {
    /// Flat color.
    Basic,
    /// Phong shading.
    Phong,
    /// Physically based rendering.
    Pbr,
}

} // verus!
