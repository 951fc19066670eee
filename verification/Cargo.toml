[package]
name = "ndk_build"
version = "0.1.0"
edition = "2021"
publish = false

[dependencies]
serde = { version = "1", features = ["derive"] }
quick-xml = { version = "*", features = ["serialize"] }
walkdir = "2"
zip = "*"
