[package]
name = "viewcast"
version = "0.1.0"
edition = "2021"
publish = false

[dependencies]
serde_json = "=1.0.154"
serde = { version = "=1.0.229", features = ["derive"] }
lapin = { version = "=2.5.5", default-features = false }
tokio = { version = "=1.54.1", features = ["rt", "macros", "sync"] }
futures-lite = "=2.6.1"
futures = { version = "=0.3.34", default-features = false, features = ["std"] }
actix-web = { version = "=4.18.1", default-features = false, features = ["macros"] }
actix-multipart = { version = "=0.6.2", default-features = false }
awc = { version = "=3.11.0", default-features = false }
reqwest = { version = "=0.12.28", default-features = false, features = ["multipart"] }
mongodb = { version = "=3.9.1", default-features = false, features = ["compat-3-0-0", "openssl-tls"] }
azure_storage = "=0.21.0"
azure_storage_blobs = "=0.21.0"
jsonwebtoken = { version = "=9.3.1", default-features = false }
argon2 = "=0.5.3"
rand = "=0.8.8"
chrono = { version = "=0.4.45", default-features = false, features = ["std", "now"] }
uuid = { version = "=1.29.0", features = ["v4"] }
