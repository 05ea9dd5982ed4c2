[package]
name = "retrieval_fanout"
version = "0.1.0"
edition = "2021"
publish = false

[dependencies]
uuid = { version = "=1.29.0", features = ["v4", "serde"] }
serde = { version = "=1.0.229", features = ["derive"] }
serde_json = "=1.0.154"
ureq = { version = "=2.12.1", features = ["json"] }
log = "=0.4.34"
actix-web = "=4.18.1"
openai_dive = "=1.4.3"
redis = { version = "=1.8.0", features = ["tokio-comp"] }
clickhouse = { version = "=0.15.3", features = ["time"] }
sentry = { version = "=0.49.3", default-features = false }
utoipa = { version = "=6.0.0", features = ["actix_extras", "uuid"] }
rust-s3 = "=0.38.0"
