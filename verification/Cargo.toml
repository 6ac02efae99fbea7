[package]
name = "dyn_partial_eq"
version = "0.1.0"
edition = "2021"
publish = false

[dependencies]
syn = { version = "1.0", default-features = false, features = ["derive", "full", "parsing", "printing"] }
quote = { version = "1.0", default-features = false }
