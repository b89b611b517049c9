[package]
name = "vloom"
version = "0.1.0"
edition = "2021"
publish = false

[dependencies]
arboard = { version = "3", default-features = false }
clap = { version = "4", features = ["derive"] }
ctrlc = "3"
screencapturekit-sys = "*"
thiserror = "2"
tracing = "0.1"
tracing-subscriber = { version = "0.3", features = ["env-filter"] }
which = "8"
