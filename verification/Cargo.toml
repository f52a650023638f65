[package]
name = "nimbus"
version = "0.1.0"
edition = "2021"
publish = false

[dependencies]
chatgpt_rs = "=1.2.3"
chrono = "=0.4.45"
clap = { version = "=4.6.7", features = ["derive"] }
dirs = "=5.0.1"
dotenv = "=0.15.0"
env_logger = "=0.10.2"
log = "=0.4.34"
notify = "=6.1.1"
notify-debouncer-full = "=0.3.2"
plist = { version = "=1.10.3", features = ["enable_unstable_features_that_may_break_with_minor_version_bumps"] }
promkit = "=0.2.0"
reqwest = { version = "=0.11.27", features = ["json"] }
serde = { version = "=1.0.229", features = ["derive"] }
serde_json = "=1.0.154"
serde_yaml = "=0.9.34"
tokio = { version = "=1.54.1", features = ["full"] }
xattr = "=1.6.1"
