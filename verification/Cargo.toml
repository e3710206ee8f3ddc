[package]
name = "chat_tty"
version = "0.1.0"
edition = "2021"
publish = false

[dependencies]
serde_json = "1"
serde = { version = "1", features = ["derive"] }
anyhow = "1"
futures = "0.3"
tokio = { version = "1", features = ["rt-multi-thread", "macros"] }
reqwest = { version = "*", default-features = false, features = ["json", "stream"] }
eventsource-stream = "*"
rustyline = "*"
directories = "*"
colored = "*"
