[package]
name = "wrun"
version = "0.1.0"
edition = "2021"
publish = false

[dependencies]
notify = "=8.2.0"
similar = "=3.2.0"
diffy = { version = "=0.5.2", features = ["color"] }
chrono = "=0.4.45"
clap = { version = "=4.6.7", features = ["derive"] }

[dev-dependencies]
tempfile = "=3.27.0"
