[package]
name = "naia_shared"
version = "0.1.0"
edition = "2021"
publish = false

[dependencies]
naia-socket-shared = "=0.25.0"
naia-serde = "0.25"
