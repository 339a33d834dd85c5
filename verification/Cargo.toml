[package]
name = "mcsim"
version = "0.1.0"
edition = "2021"
publish = false

[dependencies]
sha2 = "=0.10.9"
hex = "=0.4.3"
metrics = "=0.24.6"
serde = { version = "=1.0.229", features = ["derive"] }
serde_json = "=1.0.154"
chrono = { version = "=0.4.45", default-features = false, features = ["clock"] }
rand = "=0.8.8"
rand_chacha = "=0.3.1"
libloading = "=0.8.9"
thiserror = "=1.0.69"
serde_yaml = "0.9"
