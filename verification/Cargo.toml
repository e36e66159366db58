[package]
name = "afar"
version = "0.1.0"
edition = "2021"
publish = false

[dependencies]
vte = "*"
bytes = "1"
tokio = { version = "1", features = ["rt", "rt-multi-thread", "sync", "io-util", "macros", "time"] }
egui = "0.34"
egui-elegance = "0.4"
serde = { version = "1", features = ["derive"] }
