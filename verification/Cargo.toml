[package]
name = "qi_lsp"
version = "0.1.0"
edition = "2021"
publish = false

[dependencies]
lsp-types = "0.97"
lsp-server = "0.7"
ropey = "1.6"
dashmap = "6"
serde_json = "1"
anyhow = "1"
log = "0.4"
env_logger = "0.11"
tokio = { version = "1", default-features = false, features = ["rt-multi-thread", "macros", "sync"] }
dirs = "5"
