[package]
name = "presence_bot"
version = "0.1.0"
edition = "2021"
publish = false

[dependencies]
regex = "1"
decancer = "3"
serde = { version = "1", features = ["derive"] }
serde_json = "1"
mongodb = "3"
serenity = "0.12"
tokio = { version = "1", features = ["macros", "rt-multi-thread"] }
moka = { version = "0.12", features = ["future"] }
dotenv = "0.15"
chrono = "0.4"
