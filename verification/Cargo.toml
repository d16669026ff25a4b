[package]
name = "kitpdf"
version = "0.1.0"
edition = "2021"
publish = false

[dependencies]
anyhow = "1"
crossterm = { version = "0.29", features = ["event-stream"] }
csscolorparser = "*"
flexi_logger = "*"
flume = "*"
futures-util = "0.3"
image = { version = "0.25", default-features = false, features = ["png"] }
log = "0.4"
memmap2 = "0.9"
mimalloc = "*"
psx-shm = "*"
rustix = { version = "1", features = ["fs", "shm"] }
thiserror = "2"
tokio = { version = "1", features = ["rt-multi-thread", "time", "signal", "macros", "sync"] }
