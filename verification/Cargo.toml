[package]
name = "dht_crawler"
version = "0.1.0"
edition = "2021"
publish = false

[dependencies]
crc = "=3.4.0"
sha1 = "=0.11.0"
rand = "=0.8.8"
tokio = { version = "=1.53.2", features = ["full"] }

[dev-dependencies]
serde_bencode = "=0.2.4"
