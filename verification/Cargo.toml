[package]
name = "jimiru"
version = "0.1.0"
edition = "2021"
publish = false

[dependencies]
ring = "*"
serde = { version = "*", features = ["derive"] }
toml = "*"
clap = "*"
libc = "*"
