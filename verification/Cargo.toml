[package]
name = "near_pump_listener"
version = "0.1.0"
edition = "2021"
publish = false

[dependencies]
base64 = "=0.22.1"
bb8 = "0.8"
bb8-postgres = "0.8"
clap = { version = "4", features = ["derive"] }
dotenv = "0.15"
futures-util = "0.3"
serde = { version = "1", features = ["derive"] }
serde_json = "1"
tokio = { version = "1", features = ["full"] }
tokio-postgres = "0.7"
warp = "0.3"
