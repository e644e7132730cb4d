[package]
name = "get_proxy"
version = "0.2.0"
edition = "2021"
publish = false

[dependencies]
async-channel = "=2.5.0"
async-priority-channel = "=0.2.0"
base64 = "=0.22.1"
bytes = "=1.12.1"
chrono = "=0.4.45"
clap = "=4.6.7"
dnsclientx = { version = "=0.5.1", features = ["tokio-async"] }
env_logger = "=0.11.11"
futures = "=0.3.34"
libc = "=0.2.191"
log = "=0.4.35"
memmap = "=0.7.0"
notify = "=6.1.1"
rand = "=0.8.8"
regex = "=1.13.1"
reqwest = { version = "=0.12.28", default-features = false, features = ["rustls-tls"] }
scraper = "=0.20.0"
serde_json = "=1.0.154"
serde_yaml = "=0.9.34"
textcode = "=0.5.1"
tokio = { version = "=1.54.1", features = ["full"] }
url = "=2.5.8"
urlparse = "=0.7.3"
