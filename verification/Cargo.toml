[package]
name = "superbook_pdf"
version = "0.1.0"
edition = "2021"
publish = false

[dependencies]
uuid = { version = "1", features = ["v4"] }
num_cpus = "1"
tokio = { version = "1", features = ["rt-multi-thread", "sync", "time", "macros"] }
rayon = "1"
image = { version = "0.25", default-features = false, features = ["png", "jpeg"] }
thiserror = "1"
