[package]
name = "imgii"
version = "0.1.0"
edition = "2021"
publish = false

[dependencies]
ab_glyph = "=0.2.32"
image = "=0.25.10"
imageproc = "=0.24.1"
rascii_art_img = "=0.4.8"
clap = { version = "=4.6.7", features = ["derive"] }
dejavu = "=2.37.0"
env_logger = "=0.11.11"
log = "=0.4.34"
num_cpus = "=1.17.0"
rayon = "=1.12.0"
