[package]
name = "evm"
version = "0.1.0"
edition = "2021"
publish = false

[dependencies]
primitive-types = { version = "*", default-features = false, features = ["std"] }
sha3 = "*"
async-trait = "*"
serde = { version = "*", features = ["derive"] }
