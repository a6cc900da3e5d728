[package]
name = "pangpang"
version = "0.1.0"
edition = "2021"
publish = false

[dependencies]
anyhow = "=1.0.104"
log = "=0.4.35"
tokio = { version = "=1.54.1", features = ["full"] }
hyper = { version = "=0.14.32", features = ["full"] }
russh = "=0.34.0"
russh-keys = "=0.22.0"
socks5-proto = "=0.3.3"
serde = { version = "=1.0.229", features = ["derive"] }
serde_derive = "=1.0.229"
async-trait = "=0.1.92"
async-recursion = "=1.2.0"
tokio-stream = "=0.1.19"
alacritty_terminal = "=0.19.1"
alacritty_config = "=0.1.1"
alacritty_config_derive = "=0.2.1"
