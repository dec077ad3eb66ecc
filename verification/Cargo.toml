[package]
name = "dex_unpacker"
version = "0.1.0"
edition = "2021"
publish = false

[dependencies]
jni = "=0.21.1"
jni-sys = "0.3"
libc = "0.2"
proc-maps = "0.4"
log = "0.4"
android_logger = "0.15"
anyhow = "1"
bytemuck = { version = "1", features = ["derive"] }
