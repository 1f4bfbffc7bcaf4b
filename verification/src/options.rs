use vstd::prelude::*;

verus! {

/// Shading modes (no flat shading).
#[derive(Clone, Copy, Debug, PartialEq, Eq, Structural)]
pub enum ShadingMode {
    /// Calculate the vertex colors, interpolate the colors into the pixel.
    Gouraud,
    /// Interpolate the normals into the pixel, calculate the pixel color.
    Phong,
}

} // verus!
