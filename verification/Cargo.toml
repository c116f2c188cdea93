[package]
name = "secretd"
version = "0.1.0"
edition = "2021"
publish = false

[dependencies]
aes-gcm = "0.10"
anyhow = "1"
aws-config = "1"
aws-sdk-sso = "1"
aws-sdk-ssooidc = "1"
base64 = "0.22"
chrono = "0.4"
getrandom = "0.3"
pbkdf2 = "0.12"
serde = { version = "1", features = ["derive"] }
serde_json = "1"
sha2 = "0.10"
tokio = { version = "1", features = ["rt-multi-thread", "time", "net"] }
uuid = { version = "1", features = ["v4"] }
zeroize = "1"
