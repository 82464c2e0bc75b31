[package]
name = "onetcli"
version = "0.1.0"
edition = "2021"
publish = false

[dependencies]
alacritty_terminal = "*"
anyhow = "1"
async-trait = "0.1"
chrono = "0.4"
dirs = "*"
futures = "0.3"
futures-util = "0.3"
mongodb = "3"
russh = { version = "*", default-features = false, features = ["ring", "rsa"] }
rust-i18n = "3"
serde_json = "1"
thiserror = "2"
tokio = { version = "1", features = ["full"] }
tokio-socks = "0.5"
tracing = "0.1"
uuid = { version = "1", features = ["v4"] }
