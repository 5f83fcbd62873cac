[package]
name = "botrunner"
version = "0.1.0"
edition = "2021"
publish = false

[dependencies]
uuid = { version = "=0.8.2", features = ["v4"] }
url = "=2.5.8"
serde = { version = "=1.0.229", features = ["derive"] }
serde_json = "=1.0.154"
zip = { version = "=0.5.13", default-features = false, features = ["deflate"] }
tokio = { version = "=1.54.1", features = ["rt-multi-thread", "macros", "fs", "time", "sync", "process", "io-util"] }
actix = "0.13"
actix-web = { version = "=4.18.1", default-features = false, features = ["macros"] }
actix-files = "=0.6.10"
reqwest = { version = "=0.11.27", default-features = false, features = ["json"] }
futures = "=0.3.34"
