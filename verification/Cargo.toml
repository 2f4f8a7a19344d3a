[package]
name = "zourit"
version = "0.1.0"
edition = "2021"
publish = false

[dependencies]
argon2 = "0.5"
jsonwebtoken = "9"
serde_json = { version = "1", features = ["preserve_order"] }
time = "0.3"
rand = "0.8"
serde = { version = "1", features = ["derive"] }
rusqlite = "*"
axum = "0.8"
tokio = { version = "1", features = ["full"] }
tower-http = { version = "*", features = ["cors"] }
askama = "*"
dotenv = "0.15"
either = "1"
