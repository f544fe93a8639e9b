[package]
name = "logpose"
version = "0.1.0"
edition = "2021"
publish = false

[dependencies]
aes = "=0.8.4"
fpe = "=0.6.1"
base62 = "=2.2.6"
uuid = { version = "=1.29.0", features = ["v4", "serde"] }
argon2 = "=0.5.3"
rand_core = { version = "=0.6.4", features = ["getrandom"] }
woothee = "=0.13.0"
md-5 = "=0.10.6"
hex = "=0.4.3"
qrcode = "=0.14.1"
chrono = { version = "=0.4.45", features = ["serde"] }
serde = { version = "=1.0.229", features = ["derive"] }
serde_json = { version = "=1.0.154", features = ["preserve_order"] }
axum = "=0.8.9"
axum-extra = { version = "=0.10.3", features = ["typed-header"] }
tokio = { version = "=1.54.1", features = ["full"] }
tower = "=0.5.3"
tower-http = { version = "=0.6.11", features = ["cors"] }
tracing = "=0.1.44"
tracing-subscriber = { version = "=0.3.23", features = ["env-filter"] }
dotenvy = "=0.15.7"
jsonwebtoken = "=9.3.1"
redis = { version = "=1.8.1", features = ["tokio-comp"] }
diesel = { version = "=2.3.14", features = ["postgres", "r2d2", "chrono", "uuid", "serde_json"] }
diesel-derive-enum = { version = "=2.1.0", features = ["postgres"] }
oauth2 = "=4.4.2"
reqwest = { version = "=0.12.28", default-features = false, features = ["json", "rustls-tls"] }
async-trait = "=0.1.92"
thiserror = "=2.0.21"
razorpay-rs = "=0.1.0-alpha.1"
