[package]
name = "retroarch-fast-indexer"
version = "1.3.3"
edition = "2021"
publish = false

[dependencies]
anyhow = "=1.0.104"
chrono = "=0.4.45"
clap = { version = "=4.6.7", features = ["derive"] }
colored = "2"
crc32fast = "=1.5.3"
dashmap = "=5.5.3"
dialoguer = "0.11"
dirs = "=5.0.1"
env_logger = "0.11"
indicatif = "0.17"
log = "0.4"
md5 = "0.7"
notify = "6"
num_cpus = "=1.17.0"
quick-xml = "=0.36.2"
rayon = "=1.12.0"
regex = "=1.13.1"
reqwest = { version = "0.12", default-features = false, features = ["blocking", "rustls-tls"] }
serde = { version = "=1.0.229", features = ["derive"] }
serde_json = "=1.0.154"
sevenz-rust = "*"
thiserror = "=1.0.69"
toml = "=0.8.23"
walkdir = "=2.5.0"
zip = { version = "=0.6.6", default-features = false, features = ["deflate"] }
