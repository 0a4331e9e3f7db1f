[package]
name = "mtproto_satori"
version = "0.1.0"
edition = "2021"
publish = false

[dependencies]
base64 = "=0.22.1"
constant_time_eq = "=0.3.1"
grammers-client = { version = "=0.11.0", features = ["html", "proxy"] }
grammers-session = "=0.11.0"
ntex = { version = "=3.12.3", features = ["tokio"] }
ntex-httparse = "=2.1.0"
tokio = { version = "=1.54.1", features = ["full"] }
serde = { version = "=1.0.229", features = ["derive"] }
serde_json = "=1.0.154"
serde_repr = "=0.1.21"
presence-rs = { version = "=0.2.0", features = ["serde"] }
config = { version = "=0.15.27", default-features = false, features = ["toml"] }
log = "=0.4.35"
env_logger = "=0.11.11"
image = { version = "=0.25.10", default-features = false, features = ["png", "jpeg", "gif"] }
infer = "=0.22.0"
mime_guess = "=2.0.5"
reqwest = { version = "=0.12.28", default-features = false, features = ["stream"] }
url = "=2.5.8"
async-tempfile = "=0.8.0"
async-stream = "=0.3.6"
futures-util = "=0.3.34"
tokio-util = { version = "=0.7.20", features = ["io"] }
lazy_static = "=1.5.1"
regex = "=1.13.1"
