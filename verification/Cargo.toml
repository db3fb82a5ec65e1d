[package]
name = "kmanb"
version = "0.1.0"
edition = "2021"
publish = false

[dependencies]
rand = "=0.7.3"
bevy = { version = "=0.12.1", default-features = false, features = ["bevy_asset"] }
serde = { version = "=1.0.229", features = ["derive"] }
serde_json = "=1.0.154"
hocon = { version = "=0.3.7", default-features = false, features = ["serde-support"] }
tracing = "=0.1.44"
tracing-subscriber = "=0.2.25"
lazy_static = "=1.5.1"
