[package]
name = "dwtr"
version = "0.1.0"
edition = "2021"
publish = false

[dependencies]
csscolorparser = "=0.6.2"
indexmap = "=2.14.2"
serde = { version = "=1.0.229", features = ["derive"] }
serde_json = "=1.0.151"
clap = { version = "=4.6.7", features = ["derive"] }
svg = "=0.18.0"
glob = "=0.3.4"
