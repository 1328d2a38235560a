[package]
name = "boopass"
version = "0.1.0"
edition = "2021"
publish = false

[dependencies]
windows = { version = "=0.62.2", features = ["Win32_Foundation", "Win32_System_Threading", "Win32_UI_WindowsAndMessaging", "Win32_System_LibraryLoader", "Win32_System_Memory", "Win32_Graphics_Dxgi", "Win32_System_SystemServices", "Win32_System_SystemInformation", "Win32_System_Console"] }
windows-core = "=0.62.2"
