[package]
name = "ripdoc"
version = "0.1.0"
edition = "2021"
publish = false

[dependencies]
owo-colors = "*"
clap = { version = "*", features = ["derive"] }
rustdoc-json = "*"
rustdoc-types = "*"
serde_json = "*"
rust-format = "*"
