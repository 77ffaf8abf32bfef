[package]
name = "tendon"
version = "0.3.0"
edition = "2021"
publish = false

[dependencies]
syn = { version = "2", features = ["full", "extra-traits"] }
proc-macro2 = "1"
cargo_metadata = "0.18"
serde = { version = "1", features = ["derive"] }
serde_json = "1"
