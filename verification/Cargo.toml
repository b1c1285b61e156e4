[package]
name = "caverr"
version = "0.1.0"
edition = "2021"
publish = false

[dependencies]
rsa = "0.6"
rand = "0.8"
sha1 = "0.10"
sha2 = "0.10"
anyhow = "1"
thiserror = "1"
clap = { version = "3.2", features = ["derive"] }
crossbeam = "0.8"
rayon = "1"
signal-hook = "0.3"
