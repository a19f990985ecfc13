[package]
name = "termtint"
version = "0.1.0"
edition = "2021"
publish = false

[dependencies]
clap = { version = "4", features = ["derive"] }
csscolorparser = "0.7"
oklab = "1"
rand = "0.8"
serde = { version = "1", features = ["derive"] }
toml = "0.8"
