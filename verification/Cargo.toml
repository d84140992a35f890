[package]
name = "polaris_et"
version = "0.1.0"
edition = "2021"
publish = false

[dependencies]
serde = { version = "1", features = ["derive"] }
serde_json = "1"
sys-locale = "0.3"
anyhow = "1"
chrono = "0.4"
dirs = "6"
tracing-subscriber = { version = "0.3", features = ["env-filter", "chrono"] }
tokio = { version = "1", features = ["rt-multi-thread", "sync", "time", "macros"] }
windows = { version = "*", features = ["ApplicationModel", "Foundation", "Win32_Foundation", "Win32_System_Com", "Win32_System_Registry", "Win32_Security", "Win32_System_Threading", "Win32_UI_Shell", "Win32_UI_WindowsAndMessaging", "Win32_Storage_Packaging_Appx", "Win32_System_DataExchange", "Win32_System_Memory", "Win32_UI_Shell_Common"] }
