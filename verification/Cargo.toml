[package]
name = "silex_lsp"
version = "0.1.0"
edition = "2021"
publish = false

[dependencies]
tower-lsp = "=0.20.0"
tokio = { version = "=1.53.2", features = ["full"] }
env_logger = "=0.11.11"
