[package]
name = "chunkvault"
version = "0.1.0"
edition = "2021"
publish = false

[dependencies]
argon2 = "*"
bcrypt = "*"
chrono = "*"
infer = "*"
rand = "*"
sha3 = "*"
slug = "*"

[dev-dependencies]
hex = "*"
