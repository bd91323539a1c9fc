[package]
name = "kindle_pult"
version = "0.1.0"
edition = "2021"
publish = false

[dependencies]
url = "*"
soup = "*"
reqwest = { version = "*", default-features = false, features = ["blocking"] }
tempfile = "*"
confy = "*"
serde = { version = "*", features = ["derive"] }
