[package]
name = "images_manage"
version = "0.1.0"
edition = "2021"
publish = false

[dependencies]
sha2 = "*"
hex = "*"
base64 = "*"
mime_guess = "*"
serde = { version = "*", features = ["derive"] }
serde_json = "*"
rusqlite = { version = "*", features = ["bundled"] }
dirs = "*"
actix-web = "*"
actix-cors = "*"
tokio = { version = "*", features = ["rt", "rt-multi-thread", "sync", "macros"] }
