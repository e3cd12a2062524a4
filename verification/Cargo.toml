[package]
name = "sensor_relay"
version = "0.1.0"
edition = "2021"
publish = false

[dependencies]
rand = "0.8"
actix = "*"
actix-web = "*"
actix-web-actors = "*"
actix-cors = "*"
actix-files = "*"
actix-codec = "*"
awc = "*"
bytes = "*"
futures = "*"
serde = { version = "*", features = ["derive"] }
serde_json = "*"
diesel = { version = "*", features = ["sqlite", "r2d2"] }
libsqlite3-sys = { version = "*", features = ["bundled"] }
dotenv = "*"
env_logger = "*"
embedded-ccs811 = "0.2"
linux-embedded-hal = "0.3"
nb = "1"
