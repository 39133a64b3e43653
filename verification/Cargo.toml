[package]
name = "changelog"
version = "0.1.0"
edition = "2021"
publish = false

[dependencies]
async-trait = "=0.1.92"
chrono = { version = "=0.4.45", features = ["serde"] }
clap = { version = "=4.6.7", features = ["derive", "env"] }
dotenv = "=0.15.0"
octocrab = "=0.41.2"
serde = { version = "=1.0.229", features = ["derive"] }
tokio = { version = "=1.53.2", features = ["macros", "rt"] }
url = { version = "=2.5.8", features = ["serde"] }
