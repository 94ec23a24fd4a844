[package]
name = "abscissa"
version = "0.1.0"
edition = "2021"
publish = false

[dependencies]
heck = "0.3"
ident_case = "1"
termcolor = "1"
semver = "1"
serde = { version = "1", features = ["derive"] }
toml = "0.5"
lazy_static = "1"
gumdrop = "0.8"
tokio = { version = "1", features = ["rt", "rt-multi-thread"] }
futures-util = "0.3"
