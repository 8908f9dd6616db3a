[package]
name = "host_plugins"
version = "0.1.0"
edition = "2021"
publish = false

[dependencies]
async-imap = { version = "=0.12.0", default-features = false, features = ["runtime-tokio"] }
async-nats = "=0.51.0"
base64 = "=0.23.1"
chrono = "=0.4.45"
cloudflare-workers-kv-sdk-rs = "=0.1.2"
cron = "=0.17.0"
dingtalk-stream = "=0.1.7"
etcetera = "=0.11.0"
flate2 = "=1.1.10"
futures = "=0.3.34"
genai = "=0.7.2"
http = "=1.5.0"
indexmap = { version = "=2.14.2", features = ["serde"] }
jsonlogic = "=0.5.1"
lettre = { version = "=0.11.23", default-features = false, features = ["builder", "smtp-transport", "tokio1", "tokio1-rustls-tls"] }
mailparse = "=0.18.0"
nkeys = "=0.4.5"
opendal = { version = "=0.59.5", default-features = false, features = ["services-memory"] }
reqwest = { version = "=0.13.5", default-features = false, features = ["json"] }
rustls = "=0.23.46"
serde = { version = "=1.0.229", features = ["derive"] }
serde_json = { version = "=1.0.154", features = ["preserve_order"] }
takecell = "=0.1.1"
tar = "=0.4.46"
tokio = { version = "=1.54.1", features = ["full"] }
tempfile = "=3.27.0"
teloxide = { version = "=0.17.0", default-features = false, features = ["rustls"] }
tokio-rustls = "=0.26.6"
uuid = { version = "=1.29.0", features = ["v4"] }
webpki-roots = "=1.0.10"
