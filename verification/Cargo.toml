[package]
name = "sheet2json"
version = "0.1.0"
edition = "2021"
publish = false

[dependencies]
calamine = "0.22"
clap = { version = "4", features = ["derive"] }
serde_json = "1"
