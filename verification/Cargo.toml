[package]
name = "dagger_explorer"
version = "0.1.0"
edition = "2021"
publish = false

[dependencies]
serde = { version = "1", features = ["derive"] }
serde_json = "1"
jwalk = "*"
trash = "*"
notify = "*"
chrono = "*"
wl-clipboard-rs = "*"
x11-clipboard = "*"
x11rb = "*"
image = "*"
rusqlite = { version = "*", features = ["bundled"] }
sysinfo = "*"
