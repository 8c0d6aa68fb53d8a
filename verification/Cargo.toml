[package]
name = "upload_service"
version = "0.1.0"
edition = "2021"
publish = false

[dependencies]
uuid = { version = "0.8", features = ["v4"] }
actix-web = { version = "3", default-features = false }
actix-http = { version = "2", default-features = false }
actix-files = "0.5"
actix-multipart = "0.3"
futures = "0.3"
log = "0.4"
env_logger = "0.8"
dotenv = "0.15"
color-eyre = "0.5"
serde = { version = "1", features = ["derive"] }
