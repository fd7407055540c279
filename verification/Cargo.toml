[package]
name = "symbols"
version = "0.1.0"
edition = "2021"
publish = false

[dependencies]
bincode = "1"
heck = "0.4"
itertools = "0.10"
proc-macro2 = "1"
quote = "1"
sea-orm = { version = "0.10", default-features = false, features = ["macros"] }
serde = { version = "1", features = ["derive"] }
syn = { version = "1", features = ["full", "extra-traits"] }
tokio = { version = "1", features = ["rt"] }
