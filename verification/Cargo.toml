[package]
name = "lemonkee"
version = "0.1.0"
edition = "2021"
publish = false

[dependencies]
active-win-pos-rs = "0.11"
aes = "0.8"
aes-gcm = "0.10"
argon2 = "0.5"
cbc = { version = "0.1", features = ["std"] }
challenge_response = "0.5"
dbus-secret-service = "4"
enigo = { version = "0.6", default-features = false, features = ["x11rb"] }
futures-util = "0.3"
hex = "0.4"
keyring = { version = "3", default-features = false }
notify = "8"
nusb = "0.2"
parking_lot = "0.12"
percent-encoding = "2"
rand = "0.8"
rusb = "0.9"
serde = { version = "1", features = ["derive"] }
serde_json = "1"
tokio = { version = "1", features = ["io-util", "macros", "net", "rt", "sync", "time"] }
ureq = "3"
url = "2"
zeroize = "1"
