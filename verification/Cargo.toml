[package]
name = "activity_tracker"
version = "0.1.0"
edition = "2021"
publish = false

[dependencies]
chrono = { version = "0.4", default-features = false, features = ["std", "clock"] }
serde = { version = "1", features = ["derive"] }
tokio = { version = "1", features = ["sync", "rt-multi-thread", "net", "time"] }
axum = "0.7"
rusqlite = { version = "0.31", features = ["bundled"] }
