[package]
name = "wsql"
version = "0.1.0"
edition = "2021"
publish = false

[dependencies]
anyhow = "=1.0.104"
arrow = { version = "=60.0.0", default-features = false }
bytemuck = { version = "=1.25.2", features = ["derive", "extern_crate_alloc"] }
opendal = { version = "=0.59.5", default-features = false, features = ["services-fs"] }
parquet = { version = "=60.0.0", default-features = false, features = ["arrow"] }
prost = "=0.14.4"
serde_json = "=1.0.154"
substrait = { version = "=0.65.0", features = ["serde", "protox"] }
tokio = { version = "=1.54.1", features = ["macros", "rt-multi-thread", "sync"] }
wgpu = { version = "=30.0.1", features = ["noop"] }
