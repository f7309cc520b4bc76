[package]
name = "cleyto_coin"
version = "0.1.0"
edition = "2021"
publish = false

[dependencies]
chrono = "0.4"
hex = "0.4"
num_cpus = "1"
openssl = "0.10"
sha2 = "0.10"

[dev-dependencies]
rand = "0.8"
reqwest = { version = "0.12", default-features = false, features = ["blocking"] }
