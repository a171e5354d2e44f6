[package]
name = "squadreplay"
version = "0.1.0"
edition = "2021"
publish = false

[dependencies]
chrono = "0.4"
clap = { version = "4", features = ["derive"] }
crc32fast = "1"
rayon = "1"
regex = "1"
rmp-serde = "1"
serde = { version = "1", features = ["derive", "rc"] }
serde_json = "1"
zstd = { version = "0.13", features = ["zstdmt"] }
