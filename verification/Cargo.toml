[package]
name = "hasp"
version = "0.1.0"
edition = "2021"
publish = false

[dependencies]
blake3 = "1"
hex = "0.4"
semver = "1"
twox-hash = { version = "1.6", default-features = false }
camino = "1"
cargo_metadata = "*"
chrono = "0.4"
color-eyre = "0.6"
colored = "*"
crates-index = { version = "*", default-features = false, features = ["sparse"] }
duct = "*"
flate2 = "1"
fs2 = "0.4"
futures = "0.3"
indenter = "0.3"
jod-thread = "*"
reqwest = "*"
rusqlite = { version = "*", features = ["bundled"] }
serde = { version = "1", features = ["derive"] }
serde_json = "1"
structopt = "0.3"
tar = "0.4"
tempfile = "3"
tokio = { version = "1", features = ["rt-multi-thread", "macros"] }
tracing = "0.1"
tracing-subscriber = "0.3"
