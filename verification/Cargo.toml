[package]
name = "cicadas"
version = "0.1.0"
edition = "2021"
publish = false

[dependencies]
rodio = { version = "=0.21.1", default-features = false, features = ["wav", "mp3"] }
reqwest = { version = "=0.12.28", default-features = false, features = ["stream"] }
tokio = { version = "=1.53.2", features = ["rt-multi-thread", "macros", "sync", "time"] }
futures-util = "=0.3.34"
serde = { version = "=1.0.229", features = ["derive"] }
lofty = "=0.25.4"
walkdir = "=2.5.0"
num_cpus = "=1.17.0"
base64 = "=0.22.1"
