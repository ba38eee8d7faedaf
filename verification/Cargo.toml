[package]
name = "ao3dl"
version = "0.1.0"
edition = "2021"
publish = false

[dependencies]
anyhow = "*"
bytes = "*"
clap = { version = "*", features = ["derive"] }
log = "*"
pretty_env_logger = "*"
reqwest = { version = "*", default-features = false, features = ["cookies", "multipart"] }
rpassword = "*"
tokio = { version = "*", features = ["rt-multi-thread", "macros", "time"] }
zip = { version = "*", default-features = false, features = ["deflate"] }
