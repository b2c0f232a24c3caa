[package]
name = "bipolar"
version = "0.1.0"
edition = "2021"
publish = false

[dependencies]
clap = { version = "4", features = ["derive"] }
ctrlc = "3"
git2 = { version = "0.19", default-features = false }
rand = "0.8"
rand_chacha = "0.3"
serde = { version = "1", features = ["derive"] }
tera = { version = "1", default-features = false }
toml = "0.8"
walkdir = "2"
