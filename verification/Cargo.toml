[package]
name = "sort_channels"
version = "0.1.0"
edition = "2021"
publish = false

[dependencies]
alphanumeric-sort = "1"
dotenv = "0.15"
mongodb = "2"
serenity = { version = "0.10", default-features = false, features = ["cache", "client", "framework", "gateway", "http", "model", "rustls_backend", "standard_framework"] }
tokio = { version = "1", features = ["macros", "rt-multi-thread"] }
