[package]
name = "autoreport"
version = "0.1.0"
edition = "2021"
publish = false

[dependencies]
anyhow = "=1.0.104"
arboard = { version = "=3.7.0", default-features = false }
async-trait = "=0.1.92"
base64 = "=0.22.1"
chrono = "=0.4.45"
crossterm = { version = "=0.28.1", features = ["event-stream"] }
diffy = "=0.4.2"
libc = "=0.2.191"
log = "=0.4.35"
ratatui = { version = "=0.29.0", features = ["unstable-rendered-line-info"] }
serde = { version = "=1.0.229", features = ["derive"] }
serde_json = "1"
tokio = { version = "=1.54.1", features = ["full"] }
tokio-stream = "=0.1.19"
tracing = "=0.1.44"
tree-sitter = "=0.25.10"
tree-sitter-bash = "=0.25.1"
unicode-width = "=0.2.0"
url = "=2.5.8"
uuid = { version = "=1.29.0", features = ["v4"] }
which = "=8.0.6"
