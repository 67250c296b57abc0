[package]
name = "pact_engine"
version = "0.1.0"
edition = "2021"
publish = false

[dependencies]
serde_json = "=1.0.154"
base64 = "=0.22.1"
snailquote = "=0.3.1"
regex = "=1.13.1"
serde_urlencoded = "=0.7.1"
rand = "=0.8.8"
rand_regex = "=0.15.1"
regex-syntax = "=0.6.29"
uuid = { version = "=1.29.0", features = ["v4"] }
chrono = "=0.4.45"
sxd-document = "=0.3.2"
clap = "4"
tokio = { version = "1", features = ["rt", "macros"] }
tracing = "0.1"
tracing-subscriber = "0.3"
tracing-core = "0.1"
tracing-log = "0.2"
log = "0.4"
termsize = "0.1"
ansi_term = "0.12"
