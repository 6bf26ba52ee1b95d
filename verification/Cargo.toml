[package]
name = "f1_sql_updater"
version = "0.1.0"
edition = "2021"
publish = false

[dependencies]
anyhow = "1"
chrono = "0.4"
csv = "1"
log = "0.4"
mysql = "*"
sea-query = { version = "0.30", default-features = false, features = ["backend-mysql"] }
simple_logger = "*"
