[package]
name = "pratyabhijna"
version = "0.1.0"
edition = "2021"
publish = false

[dependencies]
anyhow = "*"
faer = "*"
futures = "*"
ndarray = "*"
rayon = "*"
rusqlite = { version = "*", features = ["bundled"] }
serde = { version = "*", features = ["derive"] }
serde_json = "*"
tokio = { version = "*", features = ["rt-multi-thread", "macros", "sync", "net", "time"] }
tokio-tungstenite = "*"
tracing = "*"
tracing-subscriber = "*"
