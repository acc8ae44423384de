[package]
name = "termcandy"
version = "0.1.0"
edition = "2021"
publish = false

[dependencies]
slab = "*"
unicode-width = "*"
termion = "*"
tokio = { version = "1", features = ["full"] }
futures = "0.3"
libc = "0.2"
