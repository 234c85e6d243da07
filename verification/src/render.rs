//! Rendering support: frame streaming and its wire codec, shared-memory ring
//! buffers, matrices, windows, caches and the small enums of the GPU layer.

pub mod stream;
pub mod protocol;
pub mod shm;
pub mod simd;
pub mod window;
pub mod camera;
pub mod data;
pub mod wgpu;
pub mod lighting;
pub mod replay_gui;
pub mod cache;

use vstd::prelude::*;
use crate::text::prefixed;

verus! {

/// Errors of the rendering layer.
#[derive(Debug, Clone)]
pub enum Error {
    Wgpu(String),
    Render(String),
    Data(String),
    Io(String),
}

/// The displayed message of a rendering error.
pub open spec fn render_error_text(e: Error) -> Seq<char> {
    match e {
        Error::Wgpu(m) => "wgpu error: "@ + m@,
        Error::Render(m) => "Render error: "@ + m@,
        Error::Data(m) => "Data error: "@ + m@,
        Error::Io(m) => "IO error: "@ + m@,
    }
}

impl Error {
    /// The displayed message, such as `Render error: no device`.
    pub fn to_string(&self) -> (r: String)
        ensures
            r@ == render_error_text(*self),
    {
        match self {
            Error::Wgpu(m) => prefixed("wgpu error: ", m),
            Error::Render(m) => prefixed("Render error: ", m),
            Error::Data(m) => prefixed("Data error: ", m),
            Error::Io(m) => prefixed("IO error: ", m),
        }
    }
}

} // verus!
