[package]
name = "tunesmith"
version = "0.1.0"
edition = "2021"
publish = false

[dependencies]
rand = "0.8"
hound = "3.5"
plist = "1"
serde = { version = "1", features = ["derive"] }
serde_json = "1"
clap = { version = "4", features = ["derive"] }
cpal = "0.15"
thiserror = "1"
