//! The GPU renderer front end.

use vstd::prelude::*;
use crate::text::prefixed;

verus! {

/// Renderer errors.
#[derive(Debug, Clone)]
pub enum Error {
    DeviceError(String),
    ContextError(String),
}

/// The displayed message of a renderer error.
pub open spec fn renderer_error_text(e: Error) -> Seq<char> {
    match e {
        Error::DeviceError(m) => "Device error: "@ + m@,
        Error::ContextError(m) => "Context error: "@ + m@,
    }
}

impl Error {
    /// The displayed message, such as `Device error: lost`.
    pub fn to_string(&self) -> (r: String)
        ensures
            r@ == renderer_error_text(*self),
    {
        match self {
            Error::DeviceError(m) => prefixed("Device error: ", m),
            Error::ContextError(m) => prefixed("Context error: ", m),
        }
    }
}

/// The renderer. It has no device attached, so drawing succeeds at once.
#[derive(Debug)]
pub struct Renderer;

impl Renderer {
    pub fn new() -> (r: Self) {
        Renderer
    }

    /// Draws a frame.
    pub fn draw(&self) -> (r: Result<(), Error>)
        ensures
            r is Ok,
    {
        Ok(())
    }
}

impl Default for Renderer {
    fn default() -> (r: Self) {
        Renderer::new()
    }
}

} // verus!
