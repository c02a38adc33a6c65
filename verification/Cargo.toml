[package]
name = "bombadil"
version = "0.1.0"
edition = "2021"
publish = false

[dependencies]
url = "2"
rand = "*"
serde = { version = "1", features = ["derive"] }
serde_json = "1"
clap = { version = "4", features = ["derive"] }
