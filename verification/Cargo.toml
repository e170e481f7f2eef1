[package]
name = "wl-translate"
version = "0.1.0"
edition = "2021"
publish = false

[dependencies]
anyhow = "1"
async-channel = "2"
clap = { version = "4", features = ["derive"] }
gtk4 = { version = "0.9", features = ["v4_12"] }
leptess = "0.14"
serde = { version = "1", features = ["derive"] }
serde_json = "1"
tiny-skia = "0.11"
tokio = { version = "1", features = ["rt-multi-thread", "sync", "time", "macros"] }
ureq = { version = "2", features = ["json"] }
zbus = { version = "4", default-features = false, features = ["tokio"] }
