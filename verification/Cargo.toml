[package]
name = "active_deps"
version = "0.1.0"
edition = "2021"
publish = false

[dependencies]
cargo_toml = "=0.22.3"
syn = "=1.0.109"
