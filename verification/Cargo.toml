[package]
name = "raop"
version = "0.1.0"
edition = "2021"
publish = false

[dependencies]
tokio = { version = "*", features = ["full"] }
futures = "*"
log = "*"
beefeater = "*"
hex = "*"
openssl = "*"
rand = "*"
