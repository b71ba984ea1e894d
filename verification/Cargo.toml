[package]
name = "tento-server"
version = "0.1.0"
edition = "2021"
publish = false

[dependencies]
uuid = { version = "1", features = ["v4"] }
chrono = "0.4"
sha2 = "0.10"
validator = "0.20"
serde = { version = "1", features = ["derive"] }
serde_json = "1"
log = "0.4"
env_logger = "0.11"
dotenvy = "0.15"
tokio = { version = "1", features = ["macros", "rt-multi-thread", "sync", "time"] }
actix-web = "4"
actix-cors = "0.7"
async-graphql = { version = "7", default-features = false }
async-graphql-actix-web = "7"
mongodb = { version = "3", default-features = false, features = ["compat-3-0-0", "rustls-tls"] }
futures = "0.3"
async-trait = "0.1"
jsonwebtoken = "9"
secrecy = "0.10"
reqwest = { version = "0.12", default-features = false, features = ["json", "rustls-tls"] }
scraper = "*"
