[package]
name = "collaboration"
version = "0.1.0"
edition = "2021"
publish = false

[dependencies]
anyhow = "1"
async-broadcast = "0.4"
async-trait = "0.1"
async-tungstenite = { version = "0.16", default-features = false }
axum = { version = "0.5", features = ["headers", "ws"] }
core-foundation = "0.9"
futures = "0.3"
git2 = { version = "0.15", default-features = false }
isahc = "1.7"
lazy_static = "1.4"
log = "0.4"
parking_lot = "0.12"
postage = "0.5"
prometheus = "0.13"
regex = "1"
serde = { version = "1", features = ["derive"] }
serde_json = "1"
smol = "1.2"
time = "0.3"
tokio = { version = "1", features = ["full"] }
tower = "0.4"
tracing = "0.1"
tree-sitter = "0.20"

[dev-dependencies]
tree-sitter-rust = "0.20"
unindent = "0.1"
