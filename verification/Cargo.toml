[package]
name = "fun_cli"
version = "0.1.0"
edition = "2021"
publish = false

[dependencies]
unicode-width = "0.2"
url = "2"
clap = { version = "4", features = ["derive"] }
colored = "2"
crossterm = { version = "0.28", default-features = false, features = ["events"] }
reqwest = { version = "0.12", default-features = false, features = ["blocking", "json", "rustls-tls"] }
rodio = { version = "0.20", default-features = false, features = ["mp3"] }
rustfft = "6"
serde = { version = "1", features = ["derive"] }
serde_json = "1"
