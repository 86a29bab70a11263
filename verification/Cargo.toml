[package]
name = "timecard_pdf"
version = "0.1.0"
edition = "2021"
publish = false

[dependencies]
axum = "0.7"
chrono = "0.4"
dotenvy = "0.15"
lopdf = "0.31"
mysql = { version = "25", default-features = false, features = ["minimal"] }
printpdf = "0.7"
serde = { version = "1", features = ["derive"] }
serde_json = "1"
tokio = { version = "1", features = ["full"] }
tower-http = { version = "0.5", features = ["cors"] }
