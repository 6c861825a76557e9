[package]
name = "native_mod"
version = "0.1.0"
edition = "2021"
publish = false

[dependencies]
object = "=0.40.0"
serde = { version = "=1.0.229", features = ["derive"] }
serde_json = "=1.0.154"
anyhow = "=1.0.104"
cargo_metadata = "=0.23.1"
jni = "=0.21.1"
syn = { version = "=2.0.119", features = ["full"] }
quote = "=1.0.47"
proc-macro2 = "=1.0.107"
