[package]
name = "dropship"
version = "0.1.0"
edition = "2021"
publish = false

[dependencies]
ipnet = "=2.12.2"
serde = { version = "=1.0.229", features = ["derive"] }
serde_json = "=1.0.154"
chrono = "=0.4.45"
chrono-humanize = "=0.2.3"
log = "=0.4.35"
strum = { version = "=0.28.0", features = ["derive"] }
tokio = { version = "=1.54.1", features = ["rt-multi-thread", "sync", "time", "macros", "fs"] }
eframe = { version = "=0.37.0", default-features = false, features = ["glow", "x11", "default_fonts"] }
windows = { version = "=0.58.0", features = ["Win32_Globalization", "Win32_NetworkManagement_IpHelper", "Win32_Foundation"] }
