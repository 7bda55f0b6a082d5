[package]
name = "chatterm"
version = "0.1.0"
edition = "2021"
publish = false

[dependencies]
async-trait = "*"
serenity = "*"
tokio = { version = "*", features = ["full"] }
