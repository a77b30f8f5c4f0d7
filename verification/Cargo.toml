[package]
name = "knowledge_base"
version = "0.1.0"
edition = "2021"
publish = false

[dependencies]
fuzzy-matcher = "0.3"
serde = { version = "1", features = ["derive"] }
serde_json = "1"
comrak = { version = "*", default-features = false }
chrono = "0.4"
actix-web = { version = "4", default-features = false, features = ["macros"] }
sqlx = { version = "0.8", default-features = false, features = ["sqlite", "runtime-tokio"] }
