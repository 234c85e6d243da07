//! The Model Context Protocol server's verified part: the tools it offers
//! (they describe the requested operation in text; only simplification
//! changes the expression, by dropping added or subtracted zeros) and the
//! routing of requests.

pub mod tools;
pub mod server;
