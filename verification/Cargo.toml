[package]
name = "octseq"
version = "0.1.0"
edition = "2021"
publish = false

[dependencies]
bytes = "1"
heapless = "0.8"
serde = "1"
smallvec = "1"
