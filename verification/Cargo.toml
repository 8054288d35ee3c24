[package]
name = "dock_dodger"
version = "0.1.0"
edition = "2021"
publish = false

[dependencies]
plist = "*"
serde = { version = "*", features = ["derive"] }
serde_json = "*"
tao = "*"
wry = "*"

[dev-dependencies]
tempfile = "*"
fs-err = "*"
