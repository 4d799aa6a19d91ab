[package]
name = "ice_triage"
version = "0.1.0"
edition = "2021"
publish = false

[dependencies]
colored = "*"
futures = "*"
prettytable-rs = "*"
quick-error = "*"
regex = "*"
reqwest = { version = "*", features = ["json"] }
serde = { version = "*", features = ["derive"] }
tempfile = "*"
tokio = { version = "*", features = ["macros", "process", "rt-multi-thread"] }
