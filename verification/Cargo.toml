[package]
name = "maxitest"
version = "0.1.0"
edition = "2021"
publish = false

[dependencies]
regex = "*"
clap = { version = "*", features = ["derive"] }
colored = "*"
csv = "*"
hotwatch = "*"
ratatui = "*"
rayon = "*"
reqwest = { version = "*", default-features = false, features = ["blocking"] }
serde = { version = "*", features = ["derive"] }
url = "*"
