[package]
name = "psgate"
version = "0.1.0"
edition = "2021"
publish = false

[dependencies]
tokio = { version = "=1.53.2", default-features = false, features = ["rt", "io-util", "net", "sync", "time", "macros"] }
futures = { version = "=0.3.34", default-features = false, features = ["std", "async-await"] }
log = { version = "=0.4.34", default-features = false }
env_logger = { version = "=0.11.11", default-features = false }
pin-project = "=1.1.13"
thiserror = "=2.0.21"
async-ringbuf = "=0.3.9"
request-channel = "=0.1.1"
