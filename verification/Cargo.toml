[package]
name = "ctc_tracker"
version = "0.1.0"
edition = "2021"
publish = false

[dependencies]
chrono = { version = "=0.4.45", default-features = false, features = ["std"] }
iso8601 = "=0.6.6"
log = "=0.4.34"
log2 = "=0.1.14"
dirs = "=6.0.0"
tokio = { version = "=1.54.1", default-features = false, features = ["rt-multi-thread", "macros"] }
sqlx = { version = "=0.8.6", default-features = false, features = ["sqlite", "runtime-tokio", "migrate", "derive"] }
google-youtube3 = "6"
