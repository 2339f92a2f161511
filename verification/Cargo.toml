[package]
name = "mixjack"
version = "0.1.0"
edition = "2021"
publish = false

[dependencies]
anyhow = "=1.0.104"
crossbeam-channel = "=0.5.17"
directories = "=3.0.2"
fftw = "=0.8.0"
fnv = "=1.0.7"
im = { version = "=15.1.0", features = ["serde"] }
jack = "0.13"
log = "=0.4.34"
midi-event = "=0.2.1"
parking_lot = "=0.11.2"
pretty_env_logger = "=0.4.0"
serde = { version = "=1.0.229", features = ["derive"] }
structopt = "=0.3.26"
toml = "=0.5.11"
