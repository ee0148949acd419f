[package]
name = "neptun"
version = "0.1.0"
edition = "2021"
publish = false

[dependencies]
rand = "=0.10.3"
chrono = "=0.4.45"
teloxide = { version = "=0.17.0", features = ["macros", "sqlite-storage-rustls"] }
sqlx = { version = "=0.8.6", default-features = false, features = ["sqlite", "runtime-tokio"] }
tokio = { version = "*", features = ["macros", "rt-multi-thread"] }
serde = { version = "*", features = ["derive"] }
serde_json = "*"
dptree = "*"
reqwest = "*"
takecell = "=0.1.1"
