[package]
name = "app-core"
version = "0.1.0"
edition = "2021"
publish = false

[dependencies]
regex = "1"
unicode-segmentation = "1"
serde = { version = "1", features = ["derive"] }
serde_json = "1"
thiserror = "2"
chrono = "0.4"
tokio = { version = "1", features = ["sync", "rt", "macros", "time"] }
image = { version = "0.25", default-features = false, features = ["jpeg", "png"] }
