[package]
name = "rust_radio"
version = "0.1.0"
edition = "2021"
publish = false

[dependencies]
num-complex = "*"
rustfft = "*"
nalgebra = "*"
serde = { version = "1", features = ["derive"] }
