[package]
name = "elf_ranch"
version = "0.1.0"
edition = "2021"
publish = false

[dependencies]
lazy_static = "1"
serde = { version = "1", features = ["derive"] }
serde_json = "1"
