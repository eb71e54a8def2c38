[package]
name = "smartime"
version = "0.1.0"
edition = "2021"
publish = false

[dependencies]
plist = "=1.10.3"
serde = { version = "=1.0.229", features = ["derive"] }
serde_json = "=1.0.154"
thiserror = "=2.0.21"
dirs = "=6.0.0"
walkdir = "=2.5.0"
dotenvy = "=0.15.7"
once_cell = "=1.21.4"
reqwest = { version = "=0.12.28", default-features = false, features = ["json"] }
cocoa = "=0.26.1"
objc = "=0.2.7"
core-foundation = "=0.10.1"
tauri = { version = "2", default-features = false }
