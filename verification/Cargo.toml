[package]
name = "harbor"
version = "0.1.0"
edition = "2021"
publish = false

[dependencies]
base64 = "0.22"
chacha20poly1305 = "0.10"
dirs = "*"
clap = { version = "4", features = ["derive"] }
colored = "*"
serde = { version = "1", features = ["derive"] }
toml = "*"
diesel = { version = "2", features = ["sqlite", "chrono"] }
dotenvy = "0.15"
keyring = { version = "3", features = ["linux-native"] }
uuid = { version = "1", features = ["v4"] }
chrono = "0.4"
axum = "*"
tokio = { version = "1", features = ["macros", "rt-multi-thread", "net"] }
