[package]
name = "notea"
version = "0.1.0"
edition = "2021"
publish = false

[dependencies]
sled = "=0.34.7"
warp = { version = "=0.4.3", features = ["server"] }
tokio = { version = "=1.53.2", features = ["macros", "rt-multi-thread"] }
bytes = "=1.12.1"

[dev-dependencies]
rand = "=0.10.3"
