[package]
name = "windows_island"
version = "0.1.0"
edition = "2021"
publish = false

[dependencies]
urlencoding = "2"
image = { version = "0.25", default-features = false, features = ["jpeg", "png", "bmp"] }
serde = { version = "1", features = ["derive"] }
serde_json = "1"
thiserror = "1"
sysinfo = { version = "0.32", default-features = false, features = ["system", "network"] }
tokio = { version = "1", features = ["rt-multi-thread", "macros"] }
reqwest = { version = "0.12", default-features = false, features = ["json", "rustls-tls"] }
windows = { version = "0.58", features = ["Win32_Foundation", "Win32_System_Memory", "Win32_System_Diagnostics_ToolHelp", "Win32_System_Diagnostics_Debug", "Win32_System_Threading", "Win32_System_LibraryLoader", "Win32_System_Com", "Win32_UI_WindowsAndMessaging", "Foundation", "Media_Control"] }
