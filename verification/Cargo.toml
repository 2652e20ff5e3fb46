[package]
name = "chordsheet"
version = "0.1.0"
edition = "2021"

[dependencies]
pancurses = "=0.17.0"
serde = { version = "=1.0.229", features = ["derive"] }
serde_json = "=1.0.154"

[dev-dependencies]
regex = "1"
