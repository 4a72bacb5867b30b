[package]
name = "backend"
version = "0.1.0"
edition = "2021"
publish = false

[dependencies]
rocket = { version = "0.5", features = ["json"] }
rocket_db_pools = { version = "0.2", features = ["sqlx_postgres"] }
rocket_okapi = { version = "*", features = ["swagger"] }
serde = { version = "1", features = ["derive"] }
