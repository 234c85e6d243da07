//! MathCore: validation, protocol, caching and streaming logic of a
//! mathematical computation engine, with machine-checked contracts.

pub mod text;
pub mod kernel;
pub mod pattern;
pub mod wire;
pub mod render;
pub mod compute;
pub mod bridge;
pub mod mcp;
pub mod cli;
pub mod clock;
pub mod strmap;
