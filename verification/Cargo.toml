[package]
name = "slate"
version = "0.1.0"
edition = "2021"
publish = false

[dependencies]
bevy = { version = "=0.15.3", default-features = false, features = ["bevy_color"] }
uuid = { version = "=1.12.1", features = ["v4"] }
crossterm = "=0.28.1"
tracing = "=0.1.44"
tokio = { version = "=1.54.1", features = ["sync", "rt", "time", "macros"] }
crossbeam-channel = "=0.5.17"
smallvec = "=1.16.4"
serde = { version = "=1.0.229", features = ["derive"] }
proc-macro2 = "=1.0.107"
