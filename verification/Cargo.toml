[package]
name = "mysql_prepare"
version = "0.1.0"
edition = "2021"
publish = false

[dependencies]
sqlx-core = { version = "0.8", default-features = false }
