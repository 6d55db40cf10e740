[package]
name = "riddle_metadata"
version = "0.1.0"
edition = "2021"
publish = false

[dependencies]
windows-metadata = "0.51"
windows-sys = { version = "0.48", default-features = false }
