[package]
name = "inputplug"
version = "0.1.0"
edition = "2021"
publish = false

[dependencies]
anyhow = "*"
nix = { version = "*", features = ["process"] }
pidfile-rs = "*"
structopt = "*"
x11rb = { version = "*", features = ["xinput"] }
