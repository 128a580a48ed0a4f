[package]
name = "rockshrew"
version = "0.1.0"
edition = "2021"
publish = false

[dependencies]
actix-cors = "*"
actix-web = "4"
anyhow = "1"
clap = { version = "4", features = ["derive", "env"] }
env_logger = "*"
hex = "0.4"
itertools = "*"
log = "0.4"
rand = "0.8"
reqwest = { version = "0.12", default-features = false, features = ["json"] }
rocksdb = "*"
serde = { version = "1", features = ["derive"] }
serde_json = "1"
substring = "1"
tempdir = "0.3"
tiny-keccak = { version = "2", features = ["sha3"] }
tokio = { version = "1", features = ["full"] }
uuid = "1"
