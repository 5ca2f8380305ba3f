[package]
name = "avro_schema"
version = "0.1.0"
edition = "2021"
publish = false

[dependencies]
serde = { version = "1", features = ["derive"] }
serde_json = { version = "1", features = ["preserve_order"] }
libflate = "1"
snap = "1"
crc = "2"
fallible-streaming-iterator = "0.1"
futures = "0.3"
async-stream = "0.3"
