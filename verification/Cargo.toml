[package]
name = "rofi_browser_menu"
version = "0.1.0"
edition = "2021"
publish = false

[dependencies]
serde_json = "*"
urlencoding = "*"
anyhow = "*"
tokio = { version = "*", features = ["macros", "rt-multi-thread", "net", "time"] }
tokio-tungstenite = "*"
futures-util = "*"
url = "*"
rusqlite = { version = "*", features = ["bundled"] }
