[package]
name = "lx_plugins"
version = "0.1.0"
edition = "2021"
publish = false

[dependencies]
anyhow = "=1.0.104"
serde = { version = "=1.0.229", features = ["derive"] }
serde_json = "=1.0.154"
clap = { version = "=4.6.7", features = ["derive"] }
dirs = "=5.0.1"
regex = "=1.13.1"
base64 = "=0.22.1"
sha2 = "=0.10.9"
jiff = "=0.2.39"
md5 = "0.7"
sha1 = "0.10"
