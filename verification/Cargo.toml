[package]
name = "hackem"
version = "0.1.0"
edition = "2021"
publish = false

[dependencies]
web-time = "=1.1.0"
evalexpr = "=11.3.1"
anyhow = "1"
thiserror = "1"
log = "0.4"
once_cell = "1"
clap = { version = "4", default-features = false, features = ["std", "help", "usage", "error-context"] }
serde = { version = "1", features = ["derive"] }
serde_json = "1"
egui = "0.28"
egui_extras = "0.28"
egui_dock = "0.13"
