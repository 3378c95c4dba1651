[package]
name = "plugin_manager"
version = "0.1.0"
edition = "2021"
publish = false

[dependencies]
sha256 = { version = "*", default-features = false }
pinyin = "*"
rand = "*"
libloading = "*"
serde = { version = "*", features = ["derive"] }
serde_json = "*"
