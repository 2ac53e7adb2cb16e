[package]
name = "amdu"
version = "0.1.0"
edition = "2021"
publish = false

[dependencies]
html-query-ast = "*"
html-query-extractor = "*"
steamworks = "*"
tokio = { version = "*", features = ["rt-multi-thread", "macros", "time", "sync", "fs"] }
tokio-util = "*"
humansize = "*"
