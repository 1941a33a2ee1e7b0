[package]
name = "email_sanitizer"
version = "0.1.0"
edition = "2021"
publish = false

[dependencies]
redis = "*"
mongodb = { version = "*", features = ["sync"] }
trust-dns-resolver = "*"
uuid = { version = "*", features = ["v4"] }
chrono = "*"
serde = { version = "*", features = ["derive"] }
sha2 = "*"
bcrypt = "*"
jsonwebtoken = "*"
dotenv = "*"
