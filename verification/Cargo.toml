[package]
name = "codex_switch"
version = "0.1.0"
edition = "2021"
publish = false

[dependencies]
argon2 = "*"
base64 = "*"
chacha20poly1305 = "*"
chrono = "*"
dirs = "*"
hex = "*"
rand = "0.8"
reqwest = { version = "*", default-features = false, features = ["rustls-tls", "json"] }
rusqlite = { version = "*", features = ["bundled"] }
serde = { version = "*", features = ["derive"] }
serde_json = "*"
sha2 = "*"
sysinfo = "*"
tokio = { version = "*", features = ["rt-multi-thread", "macros", "time"] }
uuid = { version = "*", features = ["v4"] }
zeroize = "*"
