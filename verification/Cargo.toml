[package]
name = "fang"
version = "0.1.0"
edition = "2021"
publish = false

[dependencies]
chrono = "0.4"
cron = "*"
sha2 = "0.10"
serde = { version = "1", features = ["derive"] }
serde_json = "1"
diesel = { version = "2", default-features = false, features = ["postgres_backend", "mysql_backend"] }
