[package]
name = "openlogi_gestures"
version = "0.1.0"
edition = "2021"
publish = false

[dependencies]
async-hid = "*"
hidpp = "*"
serde = { version = "1", features = ["derive"] }
thiserror = "*"
tokio = { version = "1", features = ["sync", "rt", "time"] }
tracing = "0.1"

[dev-dependencies]
toml = "*"
