[package]
name = "prometheus_fdw"
version = "0.1.0"
edition = "2021"
publish = false

[dependencies]
serde_json = "=1.0.154"
urlencoding = "=2.1.3"
reqwest = { version = "=0.11.27", default-features = false }
tokio = { version = "=1.54.1", features = ["rt"] }
supabase-wrappers = "=0.1.28"
pgrx = "=0.16.1"
