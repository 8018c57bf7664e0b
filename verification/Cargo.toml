[package]
name = "dioxus_primitives"
version = "0.1.0"
edition = "2021"
publish = false

[dependencies]
time = { version = "=0.3.55", features = ["local-offset"] }
palette = "=0.7.7"
floating-ui-utils = "=0.6.0"
