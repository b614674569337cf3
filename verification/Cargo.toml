[package]
name = "ipwall"
version = "0.1.0"
edition = "2021"
publish = false

[dependencies]
anyhow = "=1.0.104"
chrono = { version = "=0.4.45", features = ["serde"] }
clap = { version = "=4.6.7", features = ["derive"] }
directories = "=5.0.1"
directories-next = "=2.0.0"
duct = "=0.13.7"
ipnetwork = "=0.20.0"
rand = "=0.8.8"
serde = { version = "=1.0.229", features = ["derive"] }
toml = "=0.5.11"
ureq = "=2.12.1"
which = "=6.0.3"
