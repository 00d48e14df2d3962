[package]
name = "rclog"
version = "0.1.0"
edition = "2021"
publish = false

[dependencies]
clap = { version = "4", features = ["derive"] }
comrak = { version = "0.21", default-features = false }
semver = "1"
