[package]
name = "mini_calc"
version = "0.1.0"
edition = "2021"
publish = false

[dependencies]
ansi_term = "*"
confy = "*"
linefeed = "*"
serde = { version = "*", features = ["derive"] }
