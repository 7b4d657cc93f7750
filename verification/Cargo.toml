[package]
name = "grid_strategy"
version = "0.1.0"
edition = "2021"
publish = false

[dependencies]
chrono = "=0.4.45"
rust_decimal = "=1.43.0"
rust_decimal_macros = "=1.40.0"
serde_json = "=1.0.151"
