[package]
name = "esbuild_bundle"
version = "0.1.0"
edition = "2021"
publish = false

[dependencies]
rand = "*"
shellexpand = "*"
serde = { version = "*", features = ["derive"] }
serde_json = "*"
