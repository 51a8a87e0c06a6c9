[package]
name = "screenforge"
version = "0.1.0"
edition = "2021"
publish = false

[dependencies]
ab_glyph = "*"
anyhow = "*"
clap = { version = "*", features = ["derive"] }
image = "*"
rand = "*"
rand_chacha = "*"
serde = { version = "*", features = ["derive"] }
serde_json = "*"
serde_yaml = "*"
