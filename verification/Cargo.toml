[package]
name = "rtp_media"
version = "0.1.0"
edition = "2021"
publish = false

[dependencies]
rand = "=0.8.8"
tokio = { version = "=1.53.2", features = ["full"] }
tonic = "=0.14.6"
tonic-prost = "*"
prost = "=0.14.4"
config = "=0.15.27"
serde = { version = "1", features = ["derive"] }
hound = "=3.5.1"
tracing = "*"
tracing-subscriber = "*"
