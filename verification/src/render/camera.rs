//! The discrete settings of the camera.

use vstd::prelude::*;

verus! {

/// Camera projection kinds.
#[derive(Debug, Clone, Copy, PartialEq, Eq, Structural)]
pub enum ProjectionType {
    /// Perspective projection.
    Perspective,
    /// Orthographic projection.
    Orthographic,
}

/// Mouse buttons that drive the camera controls.
#[derive(Debug, Clone, Copy, PartialEq, Eq, Structural)]
pub enum MouseButton {
    Left,
    Middle,
    Right,
    /// No button pressed.
    NoButton,
}

} // verus!
