[package]
name = "linkman"
version = "0.1.0"
edition = "2021"
publish = false

[dependencies]
html-to-markdown-rs = "=3.18.6"
serde_json = "=1.0.154"
serde = { version = "=1.0.229", features = ["derive"] }
axum = "=0.8.9"
tokio = { version = "=1.54.1", features = ["full"] }
sqlx = { version = "=0.8.6", default-features = false, features = ["runtime-tokio", "postgres", "uuid", "chrono", "migrate"] }
reqwest = "=0.13.5"
async-openai = { version = "=0.42.2", features = ["chat-completion"] }
clap = { version = "=4.6.7", features = ["derive"] }
color-eyre = "=0.6.5"
dotenvy = "=0.15.7"
tower-http = { version = "=0.6.11", features = ["cors"] }
tracing = "=0.1.44"
tracing-subscriber = "=0.3.23"
uuid = { version = "=1.29.0", features = ["v4", "serde"] }
chrono = { version = "=0.4.45", features = ["serde"] }
