[package]
name = "pieeg-local-bridge"
version = "0.1.0"
edition = "2021"
publish = false

[dependencies]
anyhow = "=1.0.104"
async-trait = "=0.1.92"
axum = { version = "=0.8.9", default-features = false, features = ["http1", "json", "tokio"] }
clap = { version = "=4.6.7", default-features = false, features = ["std", "derive", "help", "usage", "error-context", "suggestions"] }
directories = "=6.0.0"
image = { version = "=0.25.10", default-features = false, features = ["png"] }
mdns-sd = "=0.13.11"
rand = "=0.8.8"
reqwest = { version = "=0.13.5", default-features = false, features = ["json", "rustls-no-provider"] }
rosc = "=0.11.4"
rustls = { version = "=0.23.46", default-features = false, features = ["ring", "std"] }
serde = { version = "=1.0.229", features = ["derive"] }
serde_json = "=1.0.154"
tokio = { version = "=1.54.1", features = ["rt-multi-thread", "macros", "net", "sync", "time", "signal"] }
tower-http = { version = "=0.6.11", features = ["cors"] }
tracing = "=0.1.44"
tracing-subscriber = { version = "=0.3.23", default-features = false, features = ["env-filter", "fmt"] }
tray-icon = { version = "=0.21.3", default-features = false }
webbrowser = "=1.2.6"
webrtc = "=0.13.0"
windows = { version = "0.59", features = ["Win32_Foundation", "Win32_UI_WindowsAndMessaging"] }
