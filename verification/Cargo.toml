[package]
name = "filecrypt"
version = "0.1.0"
edition = "2021"
publish = false

[dependencies]
aes = "0.8"
argon2 = "0.5"
block-padding = "0.3"
cbc = "0.1"
clap = { version = "4", features = ["derive"] }
prettytable-rs = "0.10"
rand = "0.9"
rpassword = "7"
semver = "1"
serde = { version = "1", features = ["derive"] }
serde_json = "1"
sha3 = "0.10"
