[package]
name = "xtouch_wing"
version = "0.1.0"
edition = "2021"
publish = false

[dependencies]
anyhow = "*"
clap = { version = "*", features = ["derive"] }
figment = { version = "*", features = ["yaml", "env"] }
libwing = "*"
midir = "*"
midly = "*"
rumqttc = "*"
serde = { version = "*", features = ["derive"] }
serde_with = "*"
serde_yaml = "*"
tokio = { version = "*", features = ["full"] }
tracing = "*"
tracing-subscriber = { version = "*", features = ["env-filter"] }
