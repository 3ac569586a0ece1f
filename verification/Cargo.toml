[package]
name = "treesync"
version = "0.1.0"
edition = "2021"
publish = false

[dependencies]
goblin = "=0.10.7"
uuid = { version = "=1.27.0", features = ["v4"] }
tokio = { version = "*", features = ["full"] }
aws-config = "*"
aws-sdk-s3 = "*"
warp = { version = "=0.4.3", features = ["server"] }
reqwest = { version = "*", default-features = false, features = ["json", "rustls-tls"] }
serde = { version = "*", features = ["derive"] }
clap = { version = "*", features = ["derive"] }
clap_complete = "*"
atty = "*"
prettytable-rs = "*"
tabled = "*"
termcolor = "*"
chrono = "*"
log = "*"
pretty_env_logger = "*"
battery = "*"
