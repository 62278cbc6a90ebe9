[package]
name = "option_pricing"
version = "0.1.0"
edition = "2021"
publish = false

[dependencies]
chrono = "0.4"
dotenv = "0.15"
futures = "0.3"
influxdb2 = "*"
rand = "0.9"
rand_chacha = "0.9"
tokio = { version = "1", features = ["full"] }
