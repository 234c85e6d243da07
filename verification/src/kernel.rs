//! The micro-kernel: errors, message protocol, bus requests, plugin registry,
//! sandbox, streaming back-pressure and the NanoCheck expression validators.

pub mod bus;
pub mod runtime;
pub mod error;
pub mod handoff;
pub mod protocol;
pub mod sandbox;
pub mod streaming;
pub mod validation;
