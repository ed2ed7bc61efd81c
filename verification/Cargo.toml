[package]
name = "xpr_app"
version = "0.1.0"
edition = "2021"
publish = false

[dependencies]
egui = "*"
serde = "*"
serde_json = "*"
image = { version = "*", default-features = false, features = ["png"] }
chrono = "*"
log = "*"
