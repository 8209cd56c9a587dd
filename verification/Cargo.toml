[package]
name = "insignolib"
version = "0.1.0"
edition = "2021"
publish = false

[dependencies]
scrypt = "=0.11.0"
base64 = "=0.21.7"
constant_time_eq = "=0.2.6"
rand = "=0.8.8"
pbkdf2 = "=0.12.2"
sha2 = "=0.10.9"
hex = "=0.4.3"
serde = { version = "=1.0.229", features = ["derive"] }
serde_json = "=1.0.154"
chrono = { version = "=0.4.45", features = ["serde"] }
rocket = { version = "=0.5.2", features = ["json", "secrets"] }
rocket_sync_db_pools = { version = "0.1", features = ["diesel_postgres_pool"] }
diesel = { version = "2", features = ["postgres", "chrono"] }
lettre = { version = "0.10", default-features = false, features = ["builder", "hostname", "smtp-transport", "pool", "tokio1", "tokio1-rustls-tls"] }
