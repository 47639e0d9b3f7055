[package]
name = "fydia"
version = "0.1.0"
edition = "2021"
publish = false

[dependencies]
openssl = "0.10"
argon2 = "0.5"
infer = "*"
mime = "0.3"
mime_guess = "2"
toml = "*"
serde = { version = "1", features = ["derive"] }
serde_json = "1"
reqwest = "*"
tokio = { version = "1", features = ["rt-multi-thread", "macros"] }
