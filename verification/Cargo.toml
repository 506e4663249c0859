[package]
name = "oaf"
version = "0.1.0"
edition = "2021"
publish = false

[dependencies]
git2 = { version = "*", default-features = false }
clap = { version = "4", features = ["derive"] }
enum_dispatch = "*"

[dev-dependencies]
tempfile = "3"
