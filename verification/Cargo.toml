[package]
name = "sonic_derive"
version = "0.1.0"
edition = "2021"
publish = false

[dependencies]
syn = "2"
quote = "1"
proc-macro2 = "1"
serde = "1"
phf = { version = "0.11", features = ["macros"] }
