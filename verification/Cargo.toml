[package]
name = "rawtree_cli"
version = "0.1.0"
edition = "2021"
publish = false

[dependencies]
anyhow = "=1.0.104"
chrono = "=0.4.45"
clap = { version = "=4.6.7", features = ["derive"] }
clap_complete = "=4.6.11"
comfy-table = "=7.2.2"
console = "=0.15.11"
flate2 = "=1.1.10"
indicatif = "=0.17.11"
reqwest = { version = "=0.12.28", default-features = false, features = ["blocking", "json", "rustls-tls", "gzip"] }
rpassword = "=7.5.4"
serde = { version = "=1.0.229", features = ["derive"] }
serde_json = "=1.0.154"
urlencoding = "=2.1.3"
webbrowser = "=1.2.6"
