[package]
name = "systeroid_tui"
version = "0.1.0"
edition = "2021"
publish = false

[dev-dependencies]
getopts = "0.2"
