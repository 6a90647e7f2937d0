[package]
name = "ndraw"
version = "0.1.0"
edition = "2021"
publish = false

[dependencies]
postcard = { version = "1", features = ["use-std"] }
serde = { version = "1", features = ["derive"] }
unicode-segmentation = "1"
unicode-normalization = "0.1"
strsim = "0.11"
rand = "0.9"
uuid = { version = "1", features = ["v4", "serde"] }
thiserror = "2"
tokio = { version = "1", features = ["full"] }
axum = { version = "0.8", features = ["ws"] }
tower-http = { version = "0.6", features = ["cors", "trace"] }
tracing = "0.1"
tracing-subscriber = { version = "0.3", features = ["env-filter", "json"] }
dashmap = "6"
futures-util = { version = "0.3", features = ["sink"] }
jsonwebtoken = "9"
anyhow = "1"

[dev-dependencies]
hex = "0.4"
