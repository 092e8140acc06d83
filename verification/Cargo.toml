[package]
name = "llmsh_vfs"
version = "0.1.0"
edition = "2021"
publish = false

[dependencies]
anyhow = "1"
base64 = "0.22"
libc = "0.2"
nix = { version = "0.29", features = ["fs", "poll", "process", "socket"] }
serde = { version = "1", features = ["derive"] }
serde_json = "1"
tempfile = "3"
