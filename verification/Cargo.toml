[package]
name = "cargo_repo"
version = "0.1.0"
edition = "2021"
publish = false

[dependencies]
chrono = { version = "=0.4.45", default-features = false, features = ["clock", "std", "serde"] }
diesel = { version = "=2.3.14", default-features = false, features = ["postgres", "r2d2", "chrono", "serde_json"] }
futures = "=0.3.34"
nanocl_error = { version = "=0.2.0", features = ["io", "http", "http_client", "diesel", "bollard", "ntex", "serde_json", "serde_yaml"] }
nanocl_stubs = "=0.13.0"
nanocld_client = "=0.13.0"
bollard-next = "=0.15.7"
ntex = { version = "=0.7.17", features = ["tokio"] }
ntex-http = "=0.1.11"
ntex-router = "=0.5.2"
serde = { version = "=1.0.229", features = ["derive"] }
serde_json = "=1.0.154"
serde_yaml = "=0.9.34"
users = "=0.11.0"
uuid = { version = "=1.29.0", features = ["v4"] }
