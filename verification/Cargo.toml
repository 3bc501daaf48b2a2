[package]
name = "fcm_push_listener"
version = "0.1.0"
edition = "2021"
publish = false

[dependencies]
base64 = "0.22"
p256 = { version = "0.13", features = ["ecdh"] }
hkdf = "0.12"
sha2 = "0.10"
aes-gcm = "0.10"
reqwest = { version = "0.12", default-features = false, features = ["rustls-tls"] }
tokio = { version = "1", features = ["rt-multi-thread", "sync", "time", "macros", "io-util", "net"] }
tokio-stream = "0.1"
