[package]
name = "plugin_app"
version = "0.1.0"
edition = "2021"
publish = false

[dependencies]
wasmtime = "=47.0.4"
anyhow = "=1.0.104"
