[package]
name = "flowwisper"
version = "0.1.0"
edition = "2021"
publish = false

[dependencies]
anyhow = "1"
async-trait = "0.1"
base64 = "0.22"
bytes = "1"
dirs = "5"
hound = "3.5"
nnnoiseless = { version = "0.5", default-features = false }
once_cell = "1"
r2d2 = "0.8"
r2d2_sqlite = "0.24"
rand = "0.8"
ring = "0.17"
rusqlite = { version = "0.31", features = ["bundled"] }
serde = { version = "1", features = ["derive"] }
serde_json = "1"
tempfile = "3"
thiserror = "1"
tokio = { version = "1", features = ["macros", "rt-multi-thread", "sync", "time"] }
tracing = "0.1"
ureq = "2"
