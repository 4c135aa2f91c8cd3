[package]
name = "routerify_ng"
version = "0.1.0"
edition = "2021"
publish = false

[dependencies]
regex = "1"
hyper = { version = "1", features = ["server", "http1"] }
http-body-util = "0.1"
bytes = "1"
tokio = { version = "1", features = ["net", "rt-multi-thread", "macros"] }
