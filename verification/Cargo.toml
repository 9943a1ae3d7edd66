[package]
name = "nonstop-notify"
version = "0.1.2"
edition = "2021"
publish = false

[dependencies]
serde = { version = "1", features = ["derive"] }
serde_json = "1"
fs2 = "0.4"
interprocess = "2"
open = "5"
rodio = "*"
windows-sys = { version = "*", features = ["Win32_Foundation", "Win32_Storage_FileSystem", "Win32_System_Threading", "Win32_System_Diagnostics_Debug", "Win32_UI_WindowsAndMessaging", "Win32_System_Registry", "Win32_Graphics_Gdi"] }
