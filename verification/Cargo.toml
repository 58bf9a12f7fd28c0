[package]
name = "ccs-proxy"
version = "0.1.0"
edition = "2021"
publish = false

[dependencies]
anyhow = "=1.0.104"
axum = { version = "=0.8.9", features = ["ws"] }
axum-server = { version = "=0.8.0", default-features = false, features = ["tls-rustls-no-provider"] }
base64 = "=0.22.1"
clap = { version = "=4.6.7", features = ["derive", "env"] }
futures-util = "=0.3.34"
pem = "=4.0.0"
rcgen = { version = "=0.14.10", features = ["x509-parser"] }
reqwest = { version = "=0.12.28", default-features = false, features = ["http2", "rustls-tls", "stream"] }
rustls = { version = "=0.23.46", default-features = false, features = ["ring", "std", "tls12"] }
sha2 = "=0.10.9"
tempfile = "=3.27.0"
time = "=0.3.55"
tokio = { version = "=1.54.1", features = ["full"] }
tokio-tungstenite = { version = "=0.30.0", features = ["rustls-tls-webpki-roots"] }
tracing = "=0.1.44"
tracing-subscriber = { version = "=0.3.23", features = ["env-filter"] }
url = "=2.5.8"
x509-parser = "=0.18.1"
