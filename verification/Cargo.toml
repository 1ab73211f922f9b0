[package]
name = "biosim"
version = "0.1.0"
edition = "2021"
publish = false

[dependencies]
rand = "0.8"
serde = { version = "1", features = ["derive"] }
serde_yaml = "0.9"
strsim = "0.11"
termion = "2"
tui = { version = "0.19", default-features = false, features = ["termion"] }
