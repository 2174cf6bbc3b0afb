[package]
name = "rustfarm"
version = "0.1.0"
edition = "2021"
publish = false

[dependencies]
rand = "0.8"
anyhow = "1"
crossterm = "0.25"
tui = { version = "0.19", default-features = false, features = ["crossterm"] }
tokio = { version = "1", features = ["rt-multi-thread", "macros", "time"] }
image = { version = "0.24", default-features = false, features = ["png"] }
winapi = { version = "0.3", features = ["winuser"] }
