[package]
name = "differential"
version = "0.1.0"
edition = "2021"
publish = false

[dependencies]
blake3 = "1"
clap = { version = "3", features = ["derive"] }
ed25519-compact = "2"
hex = "0.4"
melstructs = "*"
rand = "0.8"
stdcode = "0.1"
tmelcrypt = "0.2"
