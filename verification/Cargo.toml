[package]
name = "parser"
version = "0.1.0"
edition = "2021"
publish = false

[dependencies]
chrono = "=0.4.45"
regex = "=1.13.1"
rev_lines = "=0.3.0"
log = "=0.4.35"
flexi_logger = { version = "=0.29.8", features = ["compress"] }
dotenv = "=0.15.0"
sqlx = { version = "=0.8.6", default-features = false, features = ["postgres", "runtime-tokio", "derive"] }
tokio = { version = "=1.54.1", features = ["full"] }
futures = "=0.3.34"
skillratings = "=0.29.2"
calamine = "=0.38.0"
google-sheets4 = "=5.0.5"
rust_xlsxwriter = { version = "=0.102.0", features = ["serde"] }
serde = { version = "=1.0.229", features = ["derive"] }
serde_json = "=1.0.154"
tokio-stream = "=0.1.19"
