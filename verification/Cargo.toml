[package]
name = "rauthp"
version = "0.1.0"
edition = "2021"
publish = false

[dependencies]
base32ct = { version = "=0.3.1", features = ["alloc"] }
clap = "=4.6.7"
hmac = "=0.13.0"
oo7 = "=0.6.0"
sha1 = "=0.11.0"
tokio = { version = "=1.53.2", features = ["rt"] }
