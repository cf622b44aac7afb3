[package]
name = "language_greenhouse"
version = "0.1.0"
edition = "2021"
publish = false

[dependencies]
cranelift = "=0.88.2"
cranelift-jit = "=0.88.2"
cranelift-module = "=0.88.2"
cranelift-native = "=0.88.2"

[dev-dependencies]
chumsky = "=0.9.3"
