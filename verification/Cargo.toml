[package]
name = "lithos"
version = "0.1.0"
edition = "2021"
publish = false

[dependencies]
crossbeam-queue = "0.3"
pc-keyboard = "0.7"
spin = "0.9"
conquer-once = "*"
futures-util = "0.3"
x86_64 = { version = "*", default-features = false, features = ["instructions"] }
