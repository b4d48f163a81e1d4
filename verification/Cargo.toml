[package]
name = "sammy"
version = "0.1.0"
edition = "2021"
publish = false

[dependencies]
chrono = "=0.4.45"
clap = "=3.2.25"
config = "=0.13.4"
hyper = { version = "=0.14.32", features = ["client", "http1", "tcp"] }
hyper-tls = "=0.5.0"
log = "=0.4.34"
serde = "=1.0.229"
serde_derive = "=1.0.229"
serde_json = "=1.0.151"
simplelog = "=0.12.2"
tokio = { version = "=1.53.2", features = ["rt-multi-thread", "macros"] }
tokio-postgres = { version = "=0.7.18", features = ["with-chrono-0_4"] }
