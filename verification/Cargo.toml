[package]
name = "portcull"
version = "0.1.0"
edition = "2021"
publish = false

[dependencies]
clap = { version = "=4.6.7", features = ["derive"] }
sysinfo = "=0.37.2"
