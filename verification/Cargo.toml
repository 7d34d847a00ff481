[package]
name = "weather_station_bot"
version = "0.1.0"
edition = "2021"
publish = false

[dependencies]
chrono = "=0.4.45"
serde = { version = "=1.0.229", features = ["derive"] }
serde_json = "=1.0.154"
clap = "2"
config = "0.10"
diesel = { version = "1.4", features = ["sqlite"] }
tokio = { version = "0.2", features = ["full"] }
tbot = "0.6"
rumq-client = "=0.1.0-alpha.10"
tower-web = "0.3"
