[package]
name = "flicker"
version = "0.1.0"
edition = "2021"
publish = false

[dependencies]
anyhow = "1"
clap = { version = "4", features = ["derive"] }
hex = "0.4"
indicatif = "0.17"
libc = "0.2"
md-5 = "0.10"
sha2 = "0.10"
