[package]
name = "fox"
version = "0.1.0"
edition = "2021"
publish = false

[dependencies]
clap = { version = "=4.6.7", features = ["derive"] }
eq-float = "=0.1.0"
thiserror = "=1.0.69"
