[package]
name = "iou"
version = "0.1.0"
edition = "2021"
publish = false

[dependencies]
clap = "2.33"
log = "0.4"
pretty_env_logger = "0.4"
serde = { version = "1", features = ["derive"] }
tokio = { version = "1", features = ["macros", "rt-multi-thread"] }
warp = { version = "0.3", default-features = false }
