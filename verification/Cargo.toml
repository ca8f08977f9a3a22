[package]
name = "songbook"
version = "0.1.0"
edition = "2021"
publish = false

[dependencies]
bytes = "=1.12.1"
chrono = "=0.4.45"
clap = { version = "=4.6.7", features = ["derive"] }
config-file = { version = "=0.2.3", features = ["yaml"] }
frankenstein = { version = "=0.52.1", features = ["client-ureq"] }
reqwest = { version = "=0.13.5", default-features = false, features = ["blocking"] }
serde = { version = "=1.0.229", features = ["derive"] }
