[package]
name = "droidplug"
version = "0.1.0"
edition = "2021"
publish = false

[dependencies]
async-trait = "=0.1.92"
futures = "=0.3.34"
jni = "=0.19.0"
jni-utils = "=0.1.1"
serde = { version = "=1.0.229", features = ["derive"] }
uuid = "=1.29.0"
