[package]
name = "xcbars"
version = "0.1.0"
edition = "2021"
publish = false

[dependencies]
cairo-rs = "0.2"
cairo-sys-rs = { version = "0.4", features = ["xcb"] }
error-chain = "0.11"
futures = "0.1"
mio = "0.6"
pango = "0.2"
pangocairo = "0.3"
procinfo = "0.4"
time = "0.1"
tokio-core = "0.1"
tokio-io = "0.1"
tokio-process = "0.1"
tokio-timer = "0.1"
xcb = { version = "0.8", features = ["randr"] }
