[package]
name = "quality_gate"
version = "0.1.0"
edition = "2021"
publish = false

[dependencies]
serde = { version = "1", features = ["derive"] }
serde_json = "1"
shlex = "1"
thiserror = "2"
libc = "0.2"
