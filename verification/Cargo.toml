[package]
name = "colabie"
version = "0.1.0"
edition = "2021"
publish = false

[dependencies]
tokio = { version = "1", features = ["sync", "rt-multi-thread", "macros", "net", "io-util", "time"] }
rand = "0.9"
rand_chacha = "0.9"
