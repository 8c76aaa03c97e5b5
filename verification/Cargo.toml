[package]
name = "vida"
version = "0.1.0"
edition = "2021"
publish = false

[dependencies]
serde = { version = "1", features = ["derive"] }
serde_json = "1"
getrandom = "0.3"
aes-gcm = "0.10"
base64 = "0.22"
rand = "0.8"
argon2 = "0.5"
keyring = "3"
thiserror = "2"
uuid = { version = "1", features = ["v4"] }
log = "0.4"
