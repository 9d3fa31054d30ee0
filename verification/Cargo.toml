[package]
name = "hnews"
version = "0.1.0"
edition = "2021"
publish = false

[dependencies]
select = "*"
serde = { version = "*", features = ["derive"] }
serde_json = "*"
reqwest = { version = "*", default-features = false, features = ["blocking"] }
clap = "*"
