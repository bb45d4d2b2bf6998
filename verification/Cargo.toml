[package]
name = "observability"
version = "0.3.0"
edition = "2021"
publish = false

[dependencies]
axum = "*"
opentelemetry-proto = { version = "*", default-features = false, features = ["gen-tonic-messages", "trace", "with-serde"] }
prost = "*"
reqwest = { version = "0.12", default-features = false, features = ["blocking", "json", "rustls-tls"] }
rusqlite = { version = "*", features = ["bundled"] }
serde = { version = "1", features = ["derive"] }
serde_json = "1"
thiserror = "*"
tokio = { version = "1", features = ["macros", "net", "rt-multi-thread", "sync", "time"] }
tower-http = { version = "*", features = ["cors"] }
uuid = { version = "1", features = ["serde", "v4", "v5"] }
