[package]
name = "yt_search"
version = "0.1.0"
edition = "2021"
publish = false

[dependencies]
json = "=0.12.4"
futures = "=0.3.34"
reqwest = { version = "=0.13.5", default-features = false, features = ["query"] }
structopt = "=0.3.26"
tokio = { version = "=1.53.2", features = ["rt-multi-thread", "macros"] }
prettytable-rs = "=0.10.0"
