[package]
name = "hyperion"
version = "0.1.0"
edition = "2021"
publish = false

[dependencies]
anyhow = "=1.0.104"
async-trait = "0.1"
bevy = { version = "=0.16.1", default-features = false, features = ["std"] }
bytemuck = "=1.25.2"
camino = "1"
clap = { version = "=4.6.7", features = ["derive"] }
directories = "=6.0.0"
fastrand = "=2.5.0"
flume = "=0.12.0"
glam = "=0.29.3"
indexmap = "=2.14.2"
libc = "=0.2.191"
rayon = "=1.12.0"
reqwest = { version = "=0.12.28", default-features = false, features = ["rustls-tls"] }
roaring = "=0.10.12"
rustc-hash = "=2.1.3"
rustls-pki-types = { version = "=1.15.1", features = ["std"] }
schemars = "1"
serde = { version = "=1.0.229", features = ["derive"] }
serde_json = "=1.0.154"
tokio = { version = "=1.54.1", features = ["full"] }
tokio-util = "0.7"
tracing = "=0.1.44"
tracing-subscriber = { version = "=0.3.23", features = ["env-filter"] }
valence_generated = "=0.2.0-alpha.1"
valence_text = "=0.2.0-alpha.1"
