[package]
name = "lbplaylist"
version = "0.1.0"
edition = "2021"
publish = false

[dependencies]
url = "=2.5.8"
uuid = "=1.27.0"
anyhow = "*"
reqwest = { version = "*", default-features = false }
tokio = { version = "*", features = ["rt-multi-thread", "macros", "time", "sync"] }
futures = "*"
clap = { version = "*", features = ["derive"] }
clap-verbosity-flag = "*"
clap-markdown = "*"
config = { version = "*", default-features = false, features = ["toml"] }
env_logger = "*"
log = "*"
m3u = "*"
audiotags = "*"
inquire = "*"
indicatif = "*"
num-traits = "*"
musicbrainz_rs = { version = "=0.14.0", features = ["async"] }
