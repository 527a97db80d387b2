[package]
name = "socktail"
version = "0.1.0"
edition = "2021"
publish = false

[dependencies]
base64 = "*"
boringtun = "*"
bytes = "*"
clap = { version = "*", features = ["derive"] }
hex = "*"
hostname = "*"
rand = "0.8"
reqwest = { version = "*", default-features = false, features = ["json"] }
serde = { version = "*", features = ["derive"] }
serde_json = "*"
tokio = { version = "*", features = ["full"] }
tracing = "*"
tracing-subscriber = { version = "*", features = ["env-filter", "fmt"] }
x25519-dalek = { version = "*", features = ["static_secrets"] }
