[package]
name = "otp"
version = "0.1.0"
edition = "2021"
publish = false

[dependencies]
base32 = "0.4"
byteorder = "1"
rust-crypto = "0.2"
stoken = "*"
clipboard = "0.5"
dirs = "2"
keyring = "0.10"
serde = { version = "1", features = ["derive"] }
structopt = "0.3"
toml = "0.5"
