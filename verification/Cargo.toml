[package]
name = "jafarvis"
version = "0.1.0"
edition = "2021"
publish = false

[dependencies]
tokio = { version = "=1.54.1", default-features = false, features = ["sync"] }
thiserror = "=2.0.21"
chrono = "=0.4.45"
cpal = "=0.18.2"
ort = { version = "=2.0.0-rc.10", default-features = false, features = ["std", "ndarray", "load-dynamic"] }
ndarray = "=0.16.1"
rubato = "=5.0.1"
audioadapter-buffers = "=5.2.0"
