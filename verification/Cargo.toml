[package]
name = "liars_dice"
version = "0.1.0"
edition = "2021"
publish = false

[dependencies]
anyhow = "1"
rand = "0.9"
ratatui = "0.29"
russh = "0.52"
tokio = { version = "1", features = ["full"] }
