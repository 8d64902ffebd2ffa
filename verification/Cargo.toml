[package]
name = "rhai_runner"
version = "0.1.0"
edition = "2021"
publish = false

[dependencies]
cron = "*"
dashmap = "*"
poem = "*"
poem-openapi = { version = "*", features = ["scalar", "uuid"] }
rayon = "*"
reqwest = { version = "*", default-features = false, features = ["blocking"] }
rhai = "*"
serde = { version = "*", features = ["derive"] }
tokio = { version = "*", features = ["macros", "rt-multi-thread", "sync"] }
tokio-cron-scheduler = "*"
uuid = { version = "*", features = ["v4"] }
