[package]
name = "teknify"
version = "0.2.0"
edition = "2021"
publish = false

[dependencies]
clap = "2"
hyper = "0.10"
multipart = { version = "0.18", default-features = false, features = ["client", "hyper"] }
num_cpus = "1"
serde_json = "1"
threadpool = "1"
url = "1"
