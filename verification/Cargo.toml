[package]
name = "krill"
version = "0.1.0"
edition = "2021"
publish = false

[dependencies]
regex = "=1.13.1"
serde = { version = "=1.0.229", features = ["derive"] }
toml = "=0.8.23"
async-trait = "=0.1.92"
thiserror = "=1.0.69"
frunk = "0.4"
