[package]
name = "nbio"
version = "0.9.0"
edition = "2021"
publish = false

[dependencies]
chunked_transfer = "=1.5.0"
circbuf = "=0.2.1"
crossbeam-channel = "=0.5.17"
http = "=1.5.0"
httparse = "=1.10.1"
libaeron-sys = "=1.54.0"
libc = "=0.2.191"
mio = { version = "=0.8.11", features = ["net", "os-poll"] }
native-tls = "=0.2.18"
rand = "=0.8.8"
rustls-pemfile = "=2.2.0"
tcp-stream = { version = "0.30", features = ["native-tls"] }
tungstenite = "=0.21.0"
