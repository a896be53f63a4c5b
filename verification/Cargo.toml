[package]
name = "argon"
version = "0.1.0"
edition = "2021"
publish = false

[dependencies]
actix-web = { version = "=4.18.1", default-features = false, features = ["macros"] }
actix-ws = "=0.4.0"
anyhow = "=1.0.104"
ashpd = { version = "=0.13.13", features = ["screencast"] }
bytes = "=1.12.1"
clap = { version = "=4.6.7", features = ["derive"] }
futures-util = "=0.3.34"
libc = "=0.2.191"
log = "=0.4.35"
pipewire = "=0.10.1"
serde = { version = "=1.0.229", features = ["derive"] }
serde_json = "=1.0.154"
tokio = { version = "=1.54.1", features = ["sync", "rt", "time", "macros"] }
x11rb = "=0.14.0"
