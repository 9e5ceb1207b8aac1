[package]
name = "ctags_to_scip"
version = "0.1.0"
edition = "2021"
publish = false

[dependencies]
serde_json = "1"
scip = "*"
protobuf = "3"
clap = { version = "4", features = ["derive"] }
