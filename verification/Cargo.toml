[package]
name = "bun_support"
version = "0.1.0"
edition = "2021"
publish = false

[dependencies]
bytemuck = "1"
wyhash = "*"
xxhash-rust = { version = "0.8", features = ["xxh64"] }
