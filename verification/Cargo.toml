[package]
name = "techdocs"
version = "0.1.0"
edition = "2021"
publish = false

[dependencies]
url = "=2.5.8"
ignore = "=0.4.33"
git2 = { version = "*", default-features = false }
temp-dir = "*"
reqwest = { version = "*", default-features = false, features = ["json"] }
tokio = { version = "*", features = ["rt-multi-thread", "macros"] }
clap = { version = "*", features = ["derive"] }
serde = { version = "*", features = ["derive"] }
dotenv = "*"
