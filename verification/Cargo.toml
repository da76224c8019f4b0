[package]
name = "cnx"
version = "0.1.0"
edition = "2021"
publish = false

[dependencies]
alsa = "0.6"
anyhow = "1"
async-stream = "0.3"
byte-unit = "4"
cairo-rs = { version = "0.14", features = ["xcb"] }
cairo-sys-rs = { version = "0.14", features = ["xcb"] }
chrono = "0.4"
colors-transform = "0.2"
futures = "0.3"
iwlib = "0.1"
nix = "0.26"
pango = "0.14"
pangocairo = "0.14"
process-stream = "*"
regex = "1"
serde = { version = "1", features = ["derive"] }
serde_json = "1"
tokio = { version = "1", features = ["rt", "rt-multi-thread", "time", "macros", "net"] }
tokio-stream = { version = "0.1", features = ["time"] }
weathernoaa = "0.2"
xcb = "0.9"
xcb-util = { version = "0.3", features = ["ewmh", "icccm"] }
