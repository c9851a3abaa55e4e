[package]
name = "now_playing"
version = "0.1.0"
edition = "2021"
publish = false

[dependencies]
anyhow = "=1.0.104"
auto-launch = "=0.5.0"
axum = "=0.7.9"
base64 = "=0.22.1"
chrono = { version = "=0.4.45", default-features = false, features = ["clock", "std", "serde"] }
directories = "=5.0.1"
dotenvy = "=0.15.7"
egui = "0.29"
egui-winit = { version = "0.29", default-features = false }
egui_glow = { version = "0.29", default-features = false, features = ["winit"] }
glow = "0.14"
glutin = { version = "0.32", default-features = false }
glutin-winit = { version = "0.5", default-features = false }
image = { version = "=0.25.10", default-features = false, features = ["png", "jpeg"] }
reqwest = { version = "=0.12.28", default-features = false, features = ["json"] }
serde = { version = "=1.0.229", features = ["derive"] }
serde_json = "=1.0.154"
thiserror = "=1.0.69"
tokio = { version = "=1.54.1", features = ["full"] }
tokio-util = "=0.7.20"
toml = "=0.8.23"
tower-http = { version = "=0.5.2", features = ["cors", "trace"] }
tracing = "=0.1.44"
tracing-appender = "=0.2.5"
tracing-subscriber = { version = "=0.3.23", features = ["env-filter"] }
tray-icon = "0.19"
winit = { version = "0.30", default-features = false, features = ["rwh_06"] }
