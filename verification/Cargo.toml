[package]
name = "glacio"
version = "0.1.0"
edition = "2021"
publish = false

[dependencies]
actix-web = "*"
byteorder = "*"
chrono = { version = "*", features = ["serde"] }
clap = "*"
listenfd = "*"
prettytable-rs = "*"
regex = "*"
sbd = "*"
serde = { version = "*", features = ["derive"] }
serde_json = "*"
toml = "*"
url = "*"
walkdir = "*"
