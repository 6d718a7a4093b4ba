[package]
name = "clearc"
version = "0.1.0"
edition = "2021"
publish = false

[dependencies]
serde = { version = "1", features = ["derive"] }
serde_json = "1"
winreg = "0.52"
windows-sys = { version = "0.59", features = ["Win32_Storage_FileSystem"] }
