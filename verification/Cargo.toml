[package]
name = "luanti_proto_bot"
version = "0.1.0"
edition = "2021"
publish = false

[dependencies]
anyhow = "1"
clap = { version = "4", features = ["derive"] }
num-bigint = "0.4"
num-traits = "0.2"
rand = "0.8"
serde_json = "1"
sha2 = "0.10"
zstd = "0.13"
