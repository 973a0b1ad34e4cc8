[package]
name = "tf2_bot_kicker"
version = "0.1.0"
edition = "2021"
publish = false

[dependencies]
regex = "=1.13.1"
rcon = { version = "=0.6.0", features = ["rt-tokio"] }
tokio = { version = "=1.54.1", features = ["rt", "net", "time"] }
egui = "=0.37.0"
rfd = { version = "=0.17.2", default-features = false, features = ["xdg-portal"] }
clipboard = "=0.5.0"
crossbeam-channel = "=0.5.17"
log = "=0.4.34"
serde_json = "=1.0.154"
