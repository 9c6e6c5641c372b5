[package]
name = "remoteway"
version = "0.1.0"
edition = "2021"
publish = false

[dependencies]
anyhow = "=1.0.104"
ash = "=0.38.0"
bytes = "=1.12.1"
clap = { version = "=4.6.7", features = ["derive"] }
fsr = { version = "=0.1.11", features = ["vulkan"] }
half = "=2.7.1"
libc = "=0.2.191"
mimalloc = "=0.1.52"
rayon = "=1.12.0"
thiserror = "=2.0.21"
tokio = { version = "=1.54.1", features = ["rt-multi-thread", "macros", "io-util", "io-std", "sync", "time", "process", "signal"] }
tracing = "=0.1.44"
tracing-subscriber = { version = "=0.3.23", features = ["env-filter"] }
wgpu = "=24.0.5"
