[package]
name = "gamestate"
version = "0.1.0"
edition = "2021"
publish = false

[dependencies]
jomini = "=0.37.2"
serde = { version = "=1.0.229", features = ["derive"] }
