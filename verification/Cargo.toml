[package]
name = "item_store"
version = "0.1.0"
edition = "2021"
publish = false

[dependencies]
ammonia = "4"
async-graphql = { version = "7", features = ["chrono"] }
async-graphql-warp = "7"
chrono = { version = "0.4", features = ["serde"] }
chrono-humanize = "0.2"
dotenv = "0.15"
futures = "0.3"
http = "0.2"
reqwest = { version = "0.12", features = ["json"] }
serde = { version = "1", features = ["derive"] }
serde_json = "1"
sqlx = { version = "0.8", features = ["runtime-tokio", "sqlite", "chrono"] }
thiserror = "1"
tokio = { version = "1", features = ["macros", "rt-multi-thread", "time"] }
warp = "0.3"
