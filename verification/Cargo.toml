[package]
name = "tmbf"
version = "0.1.0"
edition = "2021"
publish = false

[dependencies]
unicode-segmentation = "=1.13.3"
tokio = { version = "=1.53.2", features = ["full"] }
twitch-irc = { version = "=6.1.3", features = ["with-serde"] }
serde_yaml = "=0.9.34"
futures = "=0.3.34"
