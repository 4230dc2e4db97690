[package]
name = "piquant_world"
version = "0.1.0"
edition = "2021"
publish = false

[dependencies]
async-trait = "=0.1.92"
byteorder = "=1.5.0"
flate2 = "=1.1.10"
noise = "=0.8.2"
rand = "=0.8.8"
rayon = "=1.12.0"
serde = { version = "=1.0.229", features = ["derive"] }
thiserror = "=1.0.69"
tokio = { version = "=1.54.1", features = ["macros", "rt-multi-thread"] }
toml = "=0.5.11"
tracing-subscriber = "=0.3.23"
valence = "=0.1.0"
valence_nbt = { version = "=0.5.0", features = ["binary"] }
vek = "=0.15.10"
