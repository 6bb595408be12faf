[package]
name = "share"
version = "0.1.0"
edition = "2021"
publish = false

[dependencies]
bincode = "=1.3.3"
crossterm = "0.25"
eyre = "=0.6.14"
futures = "=0.3.34"
libp2p = { version = "=0.53.2", default-features = false, features = ["floodsub", "mdns", "noise", "tcp", "tokio", "macros", "yamux"] }
log = "=0.4.34"
pretty_env_logger = "=0.5.0"
redb = "2"
serde = { version = "=1.0.229", features = ["derive"] }
tokio = { version = "=1.53.2", features = ["rt-multi-thread", "macros", "sync", "time", "io-util", "io-std", "signal"] }
tui = "=0.19.0"
tui-input = { version = "0.4", default-features = false }
tui-logger = "0.9"
ureq = { version = "2", default-features = false }
