[package]
name = "prompt"
version = "0.1.0"
edition = "2021"
publish = false

[dependencies]
git2 = "*"
nix = { version = "*", features = ["user", "hostname"] }
