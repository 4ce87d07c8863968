[package]
name = "rustriff_lib"
version = "0.1.0"
edition = "2021"
publish = false

[dependencies]
hound = "=3.5.1"
cpal = "=0.18.2"
ringbuf = "=0.4.8"
rubato = "=0.16.2"
rustfft = "=6.4.1"
serde = { version = "=1.0.229", features = ["derive"] }
serde_json = "=1.0.154"
atomic_float = "=1.1.0"
tracing = "=0.1.44"
