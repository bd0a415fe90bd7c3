[package]
name = "ashe_worker"
version = "0.1.0"
edition = "2021"
publish = false

[dependencies]
anyhow = "1"
async-trait = "0.1"
base64 = "0.22"
bytes = "1"
chrono = { version = "0.4", default-features = false, features = ["clock"] }
cosmic-text = "0.15"
crossbeam-channel = "0.5"
dotenvy = "0.15"
opentelemetry = "0.31"
opentelemetry-otlp = { version = "0.31", default-features = false, features = ["trace", "metrics", "logs", "http-proto", "reqwest-blocking-client"] }
opentelemetry_sdk = "0.31"
rand = "0.9"
reqwest = { version = "0.12", default-features = false, features = ["json"] }
rtc = { version = "*", default-features = false }
serde = { version = "1", features = ["derive"] }
serde_json = "1"
tiny-skia = "0.11"
tokio = { version = "1", features = ["rt", "sync", "time", "macros"] }
webrtc = { version = "*" }
windows = { version = "0.62", features = ["Win32_Foundation", "Win32_Graphics_Gdi", "Win32_System_LibraryLoader", "Win32_UI_HiDpi", "Win32_UI_Input_KeyboardAndMouse", "Win32_UI_Shell", "Win32_UI_WindowsAndMessaging"] }
