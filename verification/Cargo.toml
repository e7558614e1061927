[package]
name = "cargo-slide"
version = "0.1.1"
edition = "2021"
publish = false

[dependencies]
clap = { version = "=4.6.7", features = ["derive"] }
serde = { version = "=1.0.229", features = ["derive"] }
serde_json = "=1.0.154"
roxmltree = "=0.21.2"
svgtypes = "=0.16.1"
csv = "=1.4.0"
notify = "=8.2.1"
tempfile = "=3.27.0"
open = "=5.4.5"
minifb = "*"
resvg = "*"
rodio = "*"
rusqlite = { version = "*", features = ["bundled"] }
x11-dl = "*"
