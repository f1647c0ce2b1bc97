[package]
name = "stratum"
version = "0.1.0"
edition = "2021"
publish = false

[dependencies]
sha2 = "=0.11.0"
hex = "=0.4.3"
sled = "=0.34.7"
chrono = "=0.4.45"
rustix = { version = "=1.1.5", features = ["fs", "mount"] }
serde = { version = "=1.0.229", features = ["derive"] }
toml = "=1.1.6"
tempfile = "=3.27.0"
