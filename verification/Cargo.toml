[package]
name = "pirula_time"
version = "0.1.0"
edition = "2021"
publish = false

[dependencies]
chrono = "0.4"
clap = { version = "4", features = ["derive"] }
dotenv = "0.15"
reqwest = { version = "0.12", features = ["json"] }
rocket = "0.5"
rocket_dyn_templates = { version = "0.2", features = ["handlebars"] }
rusqlite = "0.32"
serde_json = "1"
