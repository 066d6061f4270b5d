[package]
name = "dotfile_sync"
version = "0.1.0"
edition = "2021"
publish = false

[dependencies]
anyhow = "1"
colored = "2"
directories = "4"
env_logger = "0.9"
itertools = "0.10"
log = "0.4"
same-file = "1"
serde = { version = "1", features = ["derive"] }
structopt = "0.3"
tokio = { version = "1", features = ["fs", "macros", "rt-multi-thread"] }
toml = "0.5"
