[package]
name = "donation_overlay"
version = "0.1.0"
edition = "2021"
publish = false

[dependencies]
futures-util = "0.3"
num-format = "0.4"
reqwest = { version = "0.12", features = ["json", "cookies"] }
rpassword = "7"
scraper = "*"
serde = { version = "1", features = ["derive"] }
serde_json = "1"
tokio = { version = "1", features = ["full"] }
tokio-tungstenite = { version = "*", features = ["native-tls"] }
tokio-util = "0.7"
url = "2"
