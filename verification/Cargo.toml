[package]
name = "blackjack"
version = "0.1.0"
edition = "2021"
publish = false

[dependencies]
tokio = { version = "1", features = ["full"] }
rand = "0.8"
serde = { version = "1", features = ["derive"] }
serde_json = "1"
warp = "0.3"
futures = "0.3"
tokio-stream = "0.1"
uuid = { version = "1", features = ["v4"] }
tungstenite = "0.21"
reqwest = { version = "0.12", default-features = false, features = ["json"] }
url = "2"
color-eyre = "0.6"
