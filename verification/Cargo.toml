[package]
name = "portalenv"
version = "0.1.0"
edition = "2021"
publish = false

[dependencies]
dotenvy = "=0.15.7"
syn = { version = "=2.0.119", features = ["full", "extra-traits"] }
quote = "=1.0.47"
proc-macro2 = "=1.0.107"

[dev-dependencies]
regex = "1"
