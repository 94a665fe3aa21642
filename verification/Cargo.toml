[package]
name = "wslg_clipboard"
version = "0.1.0"
edition = "2021"
publish = false

[dependencies]
sha2 = "0.10"
thiserror = "2"
calloop = "0.14"
calloop-wayland-source = "0.4"
wayland-client = "0.31"
wayland-protocols = { version = "0.32", features = ["client", "staging"] }
rustix = { version = "1", features = ["event", "fs", "pipe"] }
windows-sys = { version = "0.60", features = ["Win32_Foundation", "Win32_System_DataExchange", "Win32_System_LibraryLoader", "Win32_System_Memory", "Win32_System_Threading", "Win32_UI_WindowsAndMessaging"] }
