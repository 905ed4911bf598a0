[package]
name = "le_token"
version = "0.1.0"
edition = "2021"
publish = false

[dependencies]
actix-web = "4"
base64 = "0.21"
borsh = "0.10"
dotenv = "0.15"
env_logger = "0.10"
log = "0.4"
qrcode = { version = "0.14", default-features = false, features = ["svg"] }
serde = { version = "1", features = ["derive"] }
solana-program = "1.18"
solana-sdk = "1.18"
