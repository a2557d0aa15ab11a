[package]
name = "threescale_cache"
version = "0.1.0"
edition = "2021"
publish = false

[dependencies]
threescalers = "=0.7.0"
serde_json = "=1.0.151"
url = "=2.5.8"
rand_core = "=0.10.1"
rand_pcg = "=0.10.2"
rand_seeder = "=0.5.0"
rand_jitter = "=0.6.1"
proxy-wasm = "=0.2.5"
serde = { version = "=1.0.229", features = ["derive"] }
bincode = "=1.3.3"
