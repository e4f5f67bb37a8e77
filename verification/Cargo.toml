[package]
name = "netflash"
version = "0.1.0"
edition = "2021"
publish = false

[dependencies]
tiny-skia = "0.11"
tokio = { version = "1", features = ["rt-multi-thread", "time", "macros"] }
reqwest = { version = "0.12", default-features = false, features = ["rustls-tls", "json"] }
hickory-resolver = "0.24"
serde = { version = "1", features = ["derive"] }
toml = "0.8"
tracing = "0.1"
tracing-subscriber = { version = "0.3", features = ["env-filter"] }
tray-icon = "0.21"
winit = "0.30"
libc = "0.2"
objc2-app-kit = "0.3"
objc2-foundation = "0.3"
