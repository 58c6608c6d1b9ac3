[package]
name = "factorio_street"
version = "0.1.0"
edition = "2021"
publish = false

[dependencies]
rand = "0.8"
macroquad = "0.4"
serde = { version = "1", features = ["derive"] }
serde_json = "1"
bincode = "1"
slotmap = "1"
uuid = { version = "1", features = ["v4"] }
reqwest = { version = "0.12", default-features = false, features = ["blocking", "json"] }
tungstenite = "0.24"
image = { version = "0.25", default-features = false, features = ["png"] }
