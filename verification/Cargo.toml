[package]
name = "noise_hoihoi"
version = "0.1.0"
edition = "2021"
publish = false

[dependencies]
serde = { version = "=1.0.229", features = ["derive"] }
serde_json = "=1.0.154"
ron = "=0.12.3"
directories = "=6.0.0"
tempfile = "=3.27.0"
thiserror = "=2.0.21"
sysinfo = "=0.40.1"
rtrb = "=0.4.1"
rubato = "*"
cpal = "*"
libpulse-binding = "*"
