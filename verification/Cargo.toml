[package]
name = "teo_runtime"
version = "0.1.0"
edition = "2021"
publish = false

[dependencies]
indexmap = "2"
serde = { version = "1", features = ["derive"] }
teo-parser = "*"
teo-teon = "*"
itertools = "*"
