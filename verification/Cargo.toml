[package]
name = "taxcy"
version = "0.1.0"
edition = "2021"
publish = false

[dependencies]
clap = { version = "4", features = ["derive"] }
cli-clipboard = "0.4"
num-traits = "0.2"
rand = "0.9"
rust_decimal = "1"
rusty-money = "0.4"
