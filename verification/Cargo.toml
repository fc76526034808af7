[package]
name = "rss_combine"
version = "0.1.0"
edition = "2021"
publish = false

[dependencies]
rss = { version = "2", default-features = false }
structopt = "0.3"
tempfile-fast = "0.3"
