[package]
name = "aur_sources"
version = "0.1.0"
edition = "2021"
publish = false

[dependencies]
osoy = "=0.4.0"
regex = "=1.13.1"
reqwest = { version = "=0.13.5", features = ["blocking", "json"] }
serde = { version = "=1.0.229", features = ["derive"] }
structopt = "=0.3.26"
terminal_size = "=0.4.4"
