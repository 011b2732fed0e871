[package]
name = "sapio_core"
version = "0.1.0"
edition = "2021"
publish = false

[dependencies]
bitcoin = "0.29"
miniscript = { version = "9", features = ["compiler"] }
sapio-ctv-emulator-trait = "*"
serde = { version = "1", features = ["derive"] }
schemars = "0.8"
