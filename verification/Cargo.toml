[package]
name = "cargo-vendor-add"
version = "0.1.0"
edition = "2021"
publish = false

[dependencies]
clap = { version = "3", features = ["derive"] }
flate2 = "1"
tar = "0.4"
thiserror = "1"
