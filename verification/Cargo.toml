[package]
name = "nhentai_archivist"
version = "0.1.0"
edition = "2021"
publish = false

[dependencies]
chrono = { version = "=0.4.45", default-features = false, features = ["std", "clock", "serde"] }
log = "=0.4.35"
reqwest = { version = "=0.12.28", default-features = false, features = ["rustls-tls", "cookies"] }
scaler = "=1.4.0"
serde = { version = "=1.0.229", features = ["derive"] }
serde_json = "=1.0.154"
serde-xml-rs = "=0.6.0"
sqlx = { version = "=0.8.6", default-features = false, features = ["sqlite", "runtime-tokio", "chrono", "migrate"] }
thiserror = "=1.0.69"
tokio = { version = "=1.54.1", features = ["full"] }
unicode-segmentation = "=1.13.3"
zip = { version = "=9.2.2", default-features = false, features = ["deflate"] }
