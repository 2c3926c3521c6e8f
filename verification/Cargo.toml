[package]
name = "pnkr"
version = "0.1.0"
edition = "2021"
publish = false

[dependencies]
actix-web = "*"
chrono = "*"
serde = { version = "*", features = ["derive"] }
serde_json = { version = "*", features = ["preserve_order"] }
sqlx = { version = "*", default-features = false, features = ["runtime-tokio", "postgres", "sqlite", "chrono", "json"] }
toml = "*"
