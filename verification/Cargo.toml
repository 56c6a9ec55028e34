[package]
name = "tsom_api"
version = "0.1.0"
edition = "2021"
publish = false

[dependencies]
actix-web = "4"
base64 = "0.22"
chacha20poly1305 = "0.10"
confy = "*"
deadpool-postgres = "*"
env_logger = "*"
futures = "0.3"
jsonwebtoken = "9"
log = "0.4"
rand_core = "0.6"
serde = { version = "1", features = ["derive"] }
serde_json = "1"
tokio = { version = "1", features = ["macros", "rt-multi-thread", "sync"] }
tokio-postgres = { version = "0.7", features = ["with-uuid-1", "with-serde_json-1"] }
uuid = { version = "1", features = ["v4", "serde"] }
