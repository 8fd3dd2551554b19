[package]
name = "simplay"
version = "0.1.0"
edition = "2021"
publish = false

[dependencies]
dirs = "*"
rand = "*"
sha256 = { version = "*", default-features = false }
clap = { version = "*", features = ["derive"] }
colored = "*"
serde = { version = "*", features = ["derive"] }
toml = "*"
image = { version = "*", default-features = false, features = ["png"] }
walkdir = "*"
fs_extra = "*"
zip-extract = "*"
rayon = "*"
bracket-noise = "*"
