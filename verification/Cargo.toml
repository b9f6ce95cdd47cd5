[package]
name = "device_info"
version = "0.1.0"
edition = "2021"
publish = false

[dependencies]
aes-gcm = "=0.10.3"
base64 = "=0.22.1"
clap = "=4.6.7"
hex = "=0.4.3"
hmac = "=0.12.1"
itertools = "=0.13.0"
md-5 = "=0.10.6"
serde = { version = "=1.0.229", features = ["derive"] }
serde_json = { version = "=1.0.154", features = ["preserve_order"] }
sha1 = "=0.10.7"
sha2 = "=0.10.9"
whoami = "=1.6.1"
winreg = "=0.52.0"
wmi = "*"
