[package]
name = "silabs_monotonic"
version = "0.1.0"
edition = "2021"
publish = false

[dependencies]
cortex-m = "=0.7.10"
fugit = "=0.3.9"
portable-atomic = "=1.15.0"
rtic-time = "=2.0.1"
silabs-metapac = { version = "=0.5.0", features = ["efr32mg22c224f512im40", "rt"] }

[dev-dependencies]
critical-section = { version = "=1.2.0", features = ["std"] }
