[package]
name = "civfun_gmr"
version = "0.1.0"
edition = "2021"
publish = false

[dependencies]
anyhow = "=1.0.104"
byteorder = "=1.5.0"
clap = { version = "=4.6.7", features = ["derive", "env"] }
directories = "=3.0.2"
iced = { version = "0.3", default-features = false, features = ["glow", "tokio"] }
notify = "=4.0.18"
open = "=1.7.1"
pretty-hex = "=0.2.1"
regex = "=1.13.1"
reqwest = { version = "=0.11.27", default-features = false, features = ["json", "multipart", "stream", "rustls-tls"] }
serde = { version = "=1.0.229", features = ["derive"] }
serde_json = "=1.0.154"
sled = "=0.34.7"
tempfile = "=3.27.0"
tokio = { version = "=1.54.1", features = ["rt-multi-thread", "macros", "sync", "time", "fs", "io-util"] }
tracing = "=0.1.44"
tracing-subscriber = "=0.3.23"
