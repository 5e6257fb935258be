[package]
name = "vocab_trainer"
version = "0.1.0"
edition = "2021"
publish = false

[dependencies]
eframe = { version = "=0.24.1", default-features = false, features = ["glow", "persistence", "default_fonts"] }
egui = { version = "=0.24.1", default-features = false }
reqwest = { version = "=0.11.27", default-features = false, features = ["blocking", "rustls-tls"] }
serde = { version = "=1.0.229", features = ["derive"] }
merriam-webster-model = "=0.2.0"
