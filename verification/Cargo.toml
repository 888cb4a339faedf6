[package]
name = "todoers"
version = "0.1.0"
edition = "2021"
publish = false

[dependencies]
argon2 = "0.5"
chacha20poly1305 = "0.10"
dryoc = "0.7"
ed25519-dalek = { version = "2", features = ["rand_core"] }
x25519-dalek = { version = "2", features = ["static_secrets"] }
sha2 = "0.10"
rand_core = { version = "0.6", features = ["getrandom"] }
loro = "1"
time = "0.3"
uuid = { version = "1", features = ["v4"] }
opaque-ke = { version = "4", features = ["argon2"] }
indexmap = "2"
ratatui-textarea = "0.9"
unicode-width = "0.2"
hex = "0.4"
zeroize = "1"
serde = { version = "1", features = ["derive"] }
serde_json = "1"
anyhow = "1"
crossterm = { version = "0.29", features = ["event-stream"] }
ratatui = { version = "0.30", default-features = false, features = ["crossterm", "layout-cache", "widget-calendar"] }
tokio = { version = "1", features = ["rt-multi-thread", "sync", "time", "macros", "fs"] }
futures = "0.3"
toml = "0.9"
clap = { version = "4", default-features = false, features = ["std", "help", "derive", "cargo"] }
directories = "6"
dialoguer = { version = "0.12", default-features = false, features = ["password"] }
reqwest = { version = "0.12", default-features = false, features = ["json"] }
tokio-tungstenite = "0.28"
