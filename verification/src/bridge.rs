//! Bridges to other systems: data planes, DMA buffer pools, record batch
//! metadata and the protocol endpoint.

pub mod data_plane;
pub mod dma;
pub mod mcp;
pub mod record_batch;
