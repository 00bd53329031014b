[package]
name = "cargo-workspaces"
version = "0.1.0"
edition = "2021"
publish = false

[dependencies]
camino = "1"
cargo_metadata = "0.18"
clap = { version = "3", features = ["derive"] }
dunce = "1"
glob = "0.3"
toml_edit = "0.19"
