[package]
name = "rig_linux"
version = "0.1.0"
edition = "2021"
publish = false

[dependencies]
regex = "1"
clap = "3"
nix = { version = "0.26", features = ["user"] }
reqwest = { version = "0.11", default-features = false, features = ["blocking", "rustls-tls"] }
simple-error = "0.2"
simplelog = { version = "0.12", features = ["paris"] }
