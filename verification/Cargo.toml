[package]
name = "rsprobe"
version = "0.5.101"
edition = "2021"
publish = false

[dependencies]
ahash = "0.8"
crc = "3"
anyhow = "1"
base64 = "0.21"
clap = { version = "4", features = ["derive", "env"] }
dotenv = "0.15"
env_logger = "0.10"
futures = "0.3"
h264-reader = "0.7"
lazy_static = "1"
log = "0.4"
once_cell = "1"
pcap = { version = "1", features = ["capture-stream"] }
rdkafka = "0.36"
serde = { version = "1", features = ["derive"] }
serde_json = "1"
sysinfo = "0.29"
tokio = { version = "1", features = ["full"] }
