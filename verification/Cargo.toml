[package]
name = "tower_guard_rs"
version = "1.0.0"
edition = "2021"
publish = false

[dependencies]
bytes = "=1.12.1"
guard-core-engine = "=4.2.0"
http = "=1.5.0"
http-body = "=1.1.0"
http-body-util = "=0.1.5"
tower = { version = "=0.5.3", features = ["util"] }
