[package]
name = "rust_rotary_encoder"
version = "0.1.0"
edition = "2021"
publish = false

[dependencies]
anyhow = "1"
log = "0.4"
esp-idf-hal = "*"
esp-idf-svc = "*"
