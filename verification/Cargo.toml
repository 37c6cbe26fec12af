[package]
name = "cpxy_ng"
version = "0.1.0"
edition = "2021"
publish = false

[dependencies]
anyhow = "1"
base64 = "0.22"
chacha20 = "0.9"
chacha20poly1305 = "0.10"
clap = { version = "4", features = ["derive", "env"] }
dotenvy = "0.15"
hickory-resolver = "0.25"
httparse = "1"
rand = "0.9"
rkyv = "0.8"
sha1 = "0.10"
sha2 = "0.10"
tokio = { version = "1", features = ["rt-multi-thread", "macros", "net", "io-util", "time", "sync"] }
tokio-rustls = "0.26"
tracing = "0.1"
tracing-subscriber = "0.3"
url = "2"
webpki-roots = "0.26"
