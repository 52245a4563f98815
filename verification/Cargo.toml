[package]
name = "terminator"
version = "0.1.0"
edition = "2021"
publish = false

[dependencies]
tokio = { version = "=1.54.1", default-features = false, features = ["sync", "time"] }
tracing = "=0.1.44"
uiautomation = "=0.11.5"
windows = { version = "=0.57.0", features = ["Win32_Foundation", "Win32_Graphics_Gdi", "Win32_System_ProcessStatus", "Win32_System_Threading", "Win32_UI_WindowsAndMessaging"] }
