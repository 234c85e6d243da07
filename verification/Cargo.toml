[package]
name = "mathcore"
version = "0.1.0"
edition = "2021"
publish = false

[dependencies]
regex-lite = "0.1"
serde = { version = "1", features = ["derive"] }
rmp-serde = "1"
serde_json = "1"
thiserror = "2"
tokio = { version = "1", features = ["sync", "time", "rt", "rt-multi-thread", "macros"] }
parking_lot = "0.12"
lazy_static = "1"
memmap2 = "0.9"
flatbuffers = "*"
glam = "*"
bytemuck = { version = "1", features = ["derive"] }
rayon = "1"
async-trait = "0.1"
clap = { version = "4", features = ["derive"] }
tracing = "0.1"
tracing-subscriber = "0.3"
arrow2 = { version = "0.18", default-features = false }
