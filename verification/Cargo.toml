[package]
name = "rowtrace"
version = "0.1.0"
edition = "2021"
publish = false

[dependencies]
cranelift = "0.95"

[dev-dependencies]
cranelift-interpreter = "0.95"
