[package]
name = "lust_gc"
version = "0.1.0"
edition = "2021"
publish = false

[dependencies]
backtrace = "0.3"
cranelift = "0.69"
cranelift-codegen = "0.69"
lazy_static = "1.4"
