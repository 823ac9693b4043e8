[package]
name = "ubat"
version = "0.1.0"
edition = "2021"
publish = false

[dependencies]
lru = "0.12"
bincode = "1.3"
uuid = { version = "1", features = ["v4"] }
chrono = "0.4"
num_cpus = "1"
serde = { version = "1", features = ["derive"] }
serde_json = "1"
toml = "0.8"
rayon = "1"
once_cell = "1"
rand = "0.8"
rand_chacha = "0.3"
