[package]
name = "ledger"
version = "0.1.0"
edition = "2021"
publish = false

[dependencies]
actix-cors = "*"
actix-governor = "*"
actix-web = { version = "*", default-features = false, features = ["macros", "compress-gzip"] }
chrono = "*"
env_logger = "*"
futures-util = "*"
jsonwebtoken = "*"
once_cell = "*"
pwhash = "*"
serde = { version = "*", features = ["derive"] }
thiserror = "*"
tracing = "*"
tracing-actix-web = "*"
