[package]
name = "quant_api"
version = "0.1.0"
edition = "2021"
publish = false

[dependencies]
chrono = "=0.4.45"
sha1 = "=0.11.0"
serde = { version = "=1.0.229", features = ["derive"] }
serde_json = "=1.0.154"
sqlx = { version = "=0.9.0", default-features = false, features = ["runtime-tokio", "postgres", "chrono", "rust_decimal", "macros"] }
tokio = { version = "=1.54.1", features = ["rt-multi-thread", "macros", "time", "sync", "process"] }
tracing = "=0.1.44"
reqwest = { version = "=0.12.28", default-features = false, features = ["json", "rustls-tls"] }
cron = "=0.17.0"
uuid = { version = "=1.29.0", features = ["v4"] }
rust_decimal = "=1.43.0"
imap = { version = "=2.4.1", default-features = false }
mail-parser = "=0.11.9"
rustls = { version = "=0.23.46", default-features = false, features = ["ring", "std", "tls12", "logging"] }
rustls-connector = { version = "=0.22.2", default-features = false, features = ["webpki-roots-certs", "rustls--ring"] }
