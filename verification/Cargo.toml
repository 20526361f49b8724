[package]
name = "httpget"
version = "0.1.0"
edition = "2021"
publish = false

[dependencies]
url = "=2.5.8"
eventual = "=0.1.7"
mio = { version = "=1.2.4", features = ["net", "os-poll"] }
