[package]
name = "parpress"
version = "0.1.0"
edition = "2021"
publish = false

[dependencies]
actix-cors = "0.7"
actix-identity = "0.8"
actix-session = { version = "0.10", features = ["redis-session"] }
actix-web = { version = "4", default-features = false, features = ["macros", "cookies", "secure-cookies"] }
argon2 = "0.5"
base64 = "0.22"
chrono = { version = "0.4", features = ["serde"] }
dotenvy = "0.15"
hex = "0.4"
reqwest = { version = "0.12", default-features = false, features = ["json", "rustls-tls"] }
serde = { version = "1", features = ["derive"] }
serde_json = "1"
sha1 = "0.10"
sqlx = { version = "0.8", default-features = false, features = ["postgres", "runtime-tokio", "uuid", "chrono", "macros"] }
thiserror = "2"
tracing = "0.1"
uuid = { version = "1", features = ["serde"] }
validator = { version = "0.20", features = ["derive"] }
