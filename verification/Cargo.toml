[package]
name = "bouncy"
version = "0.1.0"
edition = "2021"
publish = false

[dependencies]
ringbuffer = "0.15"
web-time = "1"
uuid = { version = "1", features = ["v4", "serde"] }
serde = { version = "1", features = ["derive"] }
serde_json = "1"
egui = { version = "0.29", features = ["serde"] }
eframe = { version = "0.29", default-features = false, features = ["glow", "default_fonts", "persistence", "x11"] }
