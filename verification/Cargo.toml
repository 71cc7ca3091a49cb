[package]
name = "w4dj"
version = "0.1.0"
edition = "2021"
publish = false

[dependencies]
clap = { version = "4", features = ["derive"] }
indicatif = "*"
ncmdump = "*"
rayon = "1"
serde = { version = "1", features = ["derive"] }
text-to-ascii-art = "*"
toml = "*"
walkdir = "2"
which = "*"
