[package]
name = "seqfetch"
version = "0.1.0"
edition = "2021"
publish = false

[dependencies]
clap = { version = "*", features = ["derive"] }
console = "*"
futures-util = "*"
indicatif = "*"
reqwest = { version = "*", features = ["stream"] }
reqwest-middleware = "*"
reqwest-retry = "*"
tokio = { version = "*", features = ["macros", "rt-multi-thread", "fs", "io-util"] }
