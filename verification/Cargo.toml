[package]
name = "create3_vanity"
version = "0.1.0"
edition = "2021"
publish = false

[dependencies]
alloy = { version = "*", default-features = false, features = ["sol-types"] }
rayon = "*"
hex = "*"
dotenvy = "*"
