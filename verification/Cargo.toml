[package]
name = "raytracing"
version = "0.1.0"
edition = "2021"
publish = false

[dependencies]
anyhow = "=1.0.104"
image = { version = "=0.23.14", default-features = false, features = ["jpeg"] }
impl_ops = "=0.1.1"
indicatif = "=0.17.11"
obj = "=0.10.2"
rand = "=0.8.8"
rayon = "=1.12.0"
structopt = "=0.3.26"
