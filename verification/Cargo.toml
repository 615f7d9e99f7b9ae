[package]
name = "mqtt_session"
version = "0.1.0"
edition = "2021"
publish = false

[dependencies]
mqtt-protocol = { version = "*", default-features = false }
rocket = { version = "0.5", features = ["json"] }
serde = { version = "1", features = ["derive"] }
serde_derive = "1"
serde_json = "1"
log = "0.4"
env_logger = "*"
lazy_static = "1"
toml = "*"
uuid = { version = "1", features = ["v4"] }
mac_address = "1"
tokio = { version = "1", features = ["net", "io-util", "time", "rt", "rt-multi-thread", "macros"] }
futures = "0.3"
