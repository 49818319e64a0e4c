[package]
name = "okiru"
version = "0.1.0"
edition = "2021"
publish = false

[dependencies]
chrono = { version = "*", default-features = false, features = ["clock"] }
serde = { version = "*", features = ["derive"] }
serde_json = "*"
tokio = { version = "*", features = ["macros", "rt-multi-thread", "time"] }
reqwest = { version = "*", default-features = false, features = ["json"] }
sqlx = { version = "*", default-features = false, features = ["sqlite", "runtime-tokio"] }
objc2 = "*"
objc2-app-kit = "*"
objc2-foundation = "*"
objc2-core-foundation = "*"
