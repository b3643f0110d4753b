[package]
name = "genuki"
version = "0.1.0"
edition = "2021"
publish = false

[dependencies]
ansi_term = "0.12"
anyhow = "1"
clap = "2"
infer = "*"
log = "0.4"
regex = "1"
serde = { version = "1", features = ["derive"] }
serde_yaml = "0.8"
shells = "*"
thiserror = "1"
which = "4"
