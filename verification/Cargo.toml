[package]
name = "bolt_payment_gateway"
version = "0.1.0"
edition = "2021"
publish = false

[dependencies]
axum = "*"
bson = "*"
chrono = "*"
reqwest = { version = "*", default-features = false, features = ["json"] }
serde = { version = "*", features = ["derive"] }
tokio = { version = "*", features = ["rt-multi-thread", "macros", "net", "sync", "time"] }
tower = "*"
tower-http = { version = "*", features = ["cors", "trace"] }
tracing = "*"
tracing-subscriber = "*"
