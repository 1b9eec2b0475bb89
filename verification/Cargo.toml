[package]
name = "airquality"
version = "0.1.0"
edition = "2021"
publish = false

[dependencies]
bincode = "1"
csv = "1"
libc = "0.2"
linfa = "0.7"
linfa-logistic = { version = "0.7", features = ["serde"] }
ndarray = "0.15"
plotters = "0.3"
rand = "0.8"
