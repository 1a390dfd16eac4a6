[package]
name = "dns_adblock"
version = "0.1.0"
edition = "2021"
publish = false

[dependencies]
hickory-proto = "=0.26.3"
adblock = "=0.13.5"
addr = "=0.15.6"
argon2 = "=0.6.0"
sha2 = "=0.11.1"
rand = "=0.10.3"
yansi = "=1.0.1"
base64 = "=0.23.1"
chrono = "=0.4.45"
regex = "=1.13.1"
moka = { version = "=0.12.16", features = ["sync"] }
tokio = { version = "=1.54.1", features = ["full"] }
axum = { version = "=0.8.9", features = ["ws"] }
sqlx = { version = "=0.9.0", default-features = false, features = ["sqlite", "runtime-tokio"] }
reqwest = { version = "=0.12.28", default-features = false, features = ["rustls-tls"] }
toml = "=1.1.8"
serde = { version = "=1.0.229", features = ["derive"] }
serde_json = "=1.0.154"
tracing = "=0.1.44"
tracing-subscriber = { version = "=0.3.23", features = ["env-filter"] }
hickory-resolver = { version = "=0.26.3", features = ["https-ring", "webpki-roots"] }
rustls = { version = "=0.23.46", default-features = false, features = ["ring", "std", "tls12", "logging"] }
tokio-rustls = { version = "=0.26.6", default-features = false, features = ["ring", "tls12"] }
mime_guess2 = "2"
dirs = "=7.0.0"
notify = "=8.2.1"
notify-debouncer-full = "=0.7.0"
clap = { version = "=4.6.7", features = ["derive"] }
maxminddb = "=0.32.0"
axum-server = { version = "=0.7.3", default-features = false, features = ["tls-rustls-no-provider"] }
