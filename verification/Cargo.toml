[package]
name = "omnilauncher"
version = "0.1.0"
edition = "2021"
publish = false

[dependencies]
anyhow = "=1.0.104"
axum = "=0.8.9"
deadpool-sqlite = "=0.13.0"
keyring = { version = "=3.6.3", features = ["sync-secret-service", "windows-native"] }
libc = "=0.2.191"
log = "=0.4.35"
nvml-wrapper = "=0.13.0"
percent-encoding = "=2.3.2"
reqwest = { version = "=0.13.5", default-features = false, features = ["http2", "stream", "json", "query", "form"] }
rusqlite = { version = "=0.38.0", features = ["bundled"] }
serde = { version = "=1.0.229", features = ["derive"] }
serde_json = "=1.0.154"
sysinfo = "=0.40.1"
tokio = { version = "=1.54.1", features = ["full"] }
windows-sys = { version = "=0.59.0", features = ["Win32_Foundation", "Win32_System_Threading"] }
