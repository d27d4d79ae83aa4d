[package]
name = "rusty_chat"
version = "0.1.0"
edition = "2021"
publish = false

[dependencies]
serde_json = "1"
uuid = { version = "1", features = ["v4"] }
reqwest = { version = "0.12", default-features = false, features = ["json"] }
rusqlite = { version = "0.32", features = ["bundled"] }
serde = { version = "1", features = ["derive"] }
dioxus = { version = "0.6", default-features = false, features = ["macro", "html", "signals", "hooks", "launch", "document", "asset"] }
