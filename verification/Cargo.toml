[package]
name = "lamarck"
version = "0.1.0"
edition = "2021"
publish = false

[dependencies]
camino = "*"
clap = { version = "*", features = ["derive", "env"] }
deepgram = "*"
indicatif = "*"
miette = "*"
mime_guess = "*"
thiserror = "*"
tokio = { version = "*", features = ["rt-multi-thread", "macros", "fs", "io-util"] }
tracing = "*"
url = "*"
