[package]
name = "file_sharer"
version = "0.0.1"
edition = "2021"
publish = false

[dependencies]
base64 = "0.22"
sha2 = "0.11"
serde = { version = "1", features = ["derive"] }
serde_json = "1"
socket2 = { version = "0.6", features = ["all"] }
tauri = { version = "2", default-features = false, features = ["wry"] }
libc = "0.2"
core-graphics = "0.25"
objc2-app-kit = { version = "0.3", default-features = false, features = ["std", "NSPasteboard"] }
objc2-foundation = { version = "0.3", default-features = false, features = ["std", "NSArray", "NSString"] }
