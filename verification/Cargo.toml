[package]
name = "humphrey"
version = "0.1.0"
edition = "2021"
publish = false

[dependencies]
rustls = "=0.20.9"
rustls-native-certs = "=0.6.3"
rustls-pemfile = "=1.0.4"
argon2 = { version = "=0.5.3", features = ["std"] }
rand_core = { version = "=0.6.4", features = ["getrandom"] }
uuid = { version = "=1.29.0", features = ["v4"] }
