[package]
name = "moon_plugin"
version = "0.1.0"
edition = "2021"
publish = false

[dependencies]
miette = "*"
scc = "2"
starbase_utils = "*"
tracing = "*"
warpgate_api = "*"
