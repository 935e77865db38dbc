[package]
name = "monty"
version = "0.1.0"
edition = "2021"
publish = false

[dependencies]
ahash = "0.8"
smallvec = "1"
serde = { version = "1", features = ["derive"] }
postcard = { version = "1", features = ["alloc"] }
strum = { version = "0.27", features = ["derive"] }
