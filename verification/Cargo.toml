[package]
name = "tincta"
version = "0.1.0"
edition = "2021"
publish = false

[dependencies]
regex = "1"
serde = { version = "1", features = ["derive"] }
serde_json = "1"
dirs = "5"
iced = { version = "=0.12.1", default-features = false, features = ["tokio", "advanced"] }
iced_aw = { version = "0.9.3", default-features = false, features = ["context_menu", "floating_element", "modal"] }
reqwest = { version = "0.12", default-features = false, features = ["json"] }
tokio = { version = "1", features = ["rt"] }
image = { version = "0.25", default-features = false, features = ["png"] }
