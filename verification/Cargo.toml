[package]
name = "room_monitoring"
version = "0.1.0"
edition = "2021"
publish = false

[dependencies]
anyhow = "1"
chrono = "0.4"
chrono-humanize = "*"
chrono-tz = "*"
crc = "3"
embedded-svc = "*"
esp-idf-svc = "*"
heapless = "*"
serde = { version = "1", features = ["derive"] }
serde_json = "1"
