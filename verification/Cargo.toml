[package]
name = "dualstack_echo"
version = "0.1.0"
edition = "2021"
publish = false

[dependencies]
local-ip-address = "*"
public-ip = "*"
tokio = { version = "1", features = ["full"] }
