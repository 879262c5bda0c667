[package]
name = "tunnel"
version = "0.1.0"
edition = "2021"
publish = false

[dependencies]
bytes = "1"
actix = "0.13"
actix-codec = "0.5"
actix-web = "4"
actix-web-actors = "4"
tokio = { version = "1", features = ["full"] }
tokio-util = { version = "0.7", features = ["codec"] }
tokio-tungstenite = "0.21"
futures-util = { version = "0.3", features = ["sink"] }
serde = { version = "1", features = ["derive"] }
serde_json = "1"
uuid = { version = "1", features = ["v4"] }
clap = { version = "4", features = ["derive"] }
