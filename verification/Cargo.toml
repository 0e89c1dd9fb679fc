[package]
name = "mazda_auth"
version = "0.1.0"
edition = "2021"
publish = false

[dependencies]
base64 = "=0.21.7"
dotenv = "=0.15.0"
openssl = "=0.10.81"
reqwest = { version = "=0.11.27", features = ["json"] }
serde = { version = "=1.0.229", features = ["derive"] }
serde_json = "=1.0.154"
sha256 = "=1.6.0"
tokio = { version = "=1.54.1", features = ["macros", "rt-multi-thread"] }
