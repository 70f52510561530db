[package]
name = "synapse_core"
version = "0.1.0"
edition = "2021"
publish = false

[dependencies]
regex = "=1.13.1"
hex = "=0.4.3"
hmac = "=0.12.1"
sha2 = "=0.10.9"
rand = "=0.8.8"
base64 = "=0.22.1"
bigdecimal = "=0.4.11"
uuid = { version = "=1.29.0", features = ["v4"] }
chrono = { version = "=0.4.45", default-features = false, features = ["clock", "std"] }
serde = { version = "=1.0.229", features = ["derive"] }
serde_json = "=1.0.154"
thiserror = "=1.0.69"
tracing = "=0.1.44"
tokio = { version = "=1.54.1", default-features = false, features = ["rt", "macros", "time", "sync"] }
sqlx = { version = "0.8", default-features = false, features = ["runtime-tokio", "postgres", "uuid", "chrono", "bigdecimal"] }
reqwest = { version = "0.12", default-features = false, features = ["json"] }
