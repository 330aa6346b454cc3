[package]
name = "tor_to_arti"
version = "0.1.0"
edition = "2021"
publish = false

[dependencies]
anyhow = "1"
chrono = "0.4"
clap = { version = "4", features = ["derive"] }
nix = { version = "*", features = ["signal"] }
sysinfo = "*"
tempfile = "3"
toml_edit = "0.22"
