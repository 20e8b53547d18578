[package]
name = "taskstream_core"
version = "0.1.0"
edition = "2021"
publish = false

[dependencies]
serde = { version = "1", features = ["derive"] }
serde_json = { version = "1", features = ["preserve_order"] }
chrono = "0.4"
chrono-tz = "0.10"
semver = "1"
clap = { version = "4", features = ["derive", "env"] }
tokio = { version = "1", features = ["macros", "rt-multi-thread", "time"] }
reqwest = { version = "0.12", default-features = false, features = ["json", "multipart", "stream", "rustls-tls"] }
log = "0.4"
env_logger = "0.11"
sha2 = "0.10"
futures-util = "0.3"
keyring = "3"
signal-hook = "0.3"
ctrlc = "3"
