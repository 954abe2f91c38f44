[package]
name = "demucs"
version = "0.1.0"
edition = "2021"
publish = false

[dependencies]
burn-ir = { version = "=0.21.0", default-features = false, features = ["std"] }
burn-router = { version = "=0.21.0", default-features = false, features = ["std"] }
burn-std = { version = "=0.21.0", default-features = false, features = ["std"] }
burn-tensor = { version = "=0.21.0", default-features = false, features = ["std"] }
hound = "=3.5.1"
rmp-serde = "=1.3.1"
rustfft = "6"
serde_json = "1"
