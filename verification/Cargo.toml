[package]
name = "rowsearch"
version = "0.1.0"
edition = "2021"
publish = false

[dependencies]
csv = "1"
regex = "1"
docopt = "1"
serde = { version = "1", features = ["derive"] }
