[package]
name = "terms"
version = "0.1.0"
edition = "2021"
publish = false

[dependencies]
anyhow = "=1.0.104"
async-std = "=1.13.2"
clap = { version = "=4.6.7", features = ["derive"] }
convert_case = "=0.6.0"
dirs = "=5.0.1"
elementtree = "1"
libc = "=0.2.191"
rand = "0.8"
serde_yaml = "=0.9.34"
thiserror = "=1.0.69"
