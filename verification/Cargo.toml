[package]
name = "download_manager"
version = "0.1.0"
edition = "2021"
publish = false

[dependencies]
anyhow = "1"
clap = { version = "4", features = ["derive"] }
colored = "2"
ctrlc = "3"
futures = "0.3"
hex = "0.4"
indicatif = "0.17"
reqwest = { version = "0.12", features = ["blocking", "stream"] }
sha2 = "0.10"
tokio = { version = "1", features = ["full"] }
url = "2"
