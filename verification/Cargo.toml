[package]
name = "coolviz"
version = "0.1.0"
edition = "2021"
publish = false

[dependencies]
flate2 = "1"
image = { version = "0.25", default-features = false, features = ["png"] }
serde_json = "1"
chrono = "0.4"
half = "2"
gribberish = "*"
sgp4 = "2"
ureq = "3"
glam = "*"
anyhow = "1"
fastrand = "2"
rayon = "1"
bytemuck = { version = "1", features = ["derive"] }
