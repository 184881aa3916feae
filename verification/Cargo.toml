[package]
name = "scratchc"
version = "0.1.0"
edition = "2021"
publish = false

[dependencies]
cranelift = "=0.130.2"
cranelift-module = "=0.130.2"
cranelift-native = "=0.130.2"
cranelift-object = "=0.130.2"
serde = { version = "=1.0.229", features = ["derive"] }
serde_json = "=1.0.154"
serde_with = { version = "=3.24.0", features = ["json"] }
zip = { version = "=9.1.0", default-features = false, features = ["deflate"] }
