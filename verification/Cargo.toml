[package]
name = "unvoga"
version = "0.1.0"
edition = "2021"
publish = false

[dependencies]
bincode = "1"
bytemuck = { version = "1", features = ["derive"] }
chrono = "0.4"
flate2 = "1"
itertools = "*"
noise = "0.9"
rand = "0.8"
serde = { version = "1", features = ["derive"] }
sha2 = "0.10"
splines = "4"
