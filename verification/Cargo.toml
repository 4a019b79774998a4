[package]
name = "libsql_php"
version = "0.1.0"
edition = "2021"
publish = false

[dependencies]
url = "2"
serde = { version = "1", features = ["derive"] }
serde_json = "1"
libsql = "*"
reqwest = { version = "0.12", features = ["blocking", "json"] }
tokio = { version = "1", features = ["rt-multi-thread"] }
once_cell = "1"
lazy_static = "1"
uuid = { version = "1", features = ["v4"] }
ext-php-rs = "*"
