[package]
name = "room_chat"
version = "0.1.0"
edition = "2021"
publish = false

[dependencies]
tokio = { version = "1", features = ["sync", "rt-multi-thread", "net", "macros", "io-util", "time"] }
rand = "0.8"
serde = { version = "1", features = ["derive"] }
serde_json = "1"
crossterm = "0.25"
tui = "0.19"
