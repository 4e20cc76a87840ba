[package]
name = "dufs"
version = "0.1.0"
edition = "2021"
publish = false

[dependencies]
md5 = "0.7"
base64 = "0.13"
uuid = { version = "1", features = ["v4"] }
chrono = "0.4"
xml-rs = "0.8"
mime_guess = "2"
hyper = { version = "0.14", features = ["full"] }
headers = "0.3"
tokio = { version = "1", features = ["full"] }
tokio-util = { version = "0.7", features = ["io"] }
futures = "0.3"
async-walkdir = "*"
async_zip = { version = "=0.0.19", features = ["deflate", "tokio"] }
clap = "4"
clap_complete = "4"
