[package]
name = "sheet_match"
version = "0.1.0"
edition = "2021"
publish = false

[dependencies]
anyhow = "=1.0.104"
calamine = "0.37"
mongodb = "=3.9.1"
regex = "=1.13.1"
rfd = { version = "0.15", default-features = false, features = ["xdg-portal", "tokio"] }
rust_xlsxwriter = "=0.101.0"
tokio = { version = "=1.54.1", features = ["rt-multi-thread"] }
