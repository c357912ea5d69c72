[package]
name = "plugin_manager"
version = "0.1.0"
edition = "2021"
publish = false

[dependencies]
libloading = "0.8"
error-chain = "0.12"
log = "0.4"
