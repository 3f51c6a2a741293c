[package]
name = "updatemon"
version = "0.1.0"
edition = "2021"
publish = false

[dependencies]
semver = "*"
sha2 = "*"
async-compression = { version = "*", default-features = false, features = ["futures-io", "zstd"] }
futures = { version = "*", features = ["executor"] }
reqwest = { version = "*", default-features = false }
tokio = { version = "*", features = ["rt-multi-thread", "macros", "fs", "io-util", "time", "process"] }
clap = { version = "*", features = ["derive", "env"] }
serde = { version = "*", features = ["derive"] }
serde_json = "*"
anyhow = "*"
log = "*"
env_logger = "*"
fcntl = "*"
