[package]
name = "basmati"
version = "0.1.0"
edition = "2021"
publish = false

[dependencies]
anyhow = "1"
aws-config = "1"
aws-sdk-glacier = "1"
aws-smithy-types = { version = "1", features = ["rt-tokio"] }
chrono = "0.4"
clap = { version = "4", features = ["derive"] }
colored = "2"
crossterm = "0.27"
hex = "0.4"
home = "0.5"
ratatui = "0.26"
regex = "1"
serde = { version = "1", features = ["derive"] }
serde_json = "1"
sha256 = "1"
tokio = { version = "1", features = ["macros", "rt-multi-thread"] }
