[package]
name = "inference_engine"
version = "0.1.0"
edition = "2021"
publish = false

[dependencies]
bytemuck = "1"
memmap2 = "0.9"
futures = "0.3"
thiserror = "1"
tracing = "0.1"
tracing-subscriber = "0.3"
clap = { version = "4", features = ["derive"] }
