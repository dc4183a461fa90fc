[package]
name = "takumi_cli"
version = "0.1.0"
edition = "2021"
publish = false

[dependencies]
tl = "0.7"
takumi = "*"
clap = { version = "4", features = ["derive"] }
dirs = "*"
glob = "0.3"
mimalloc = "*"
serde_json = "1"
ureq = "3"
