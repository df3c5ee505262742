[package]
name = "softbuffer_cg"
version = "0.1.0"
edition = "2021"
publish = false

[dependencies]
objc2 = "0.6"
objc2-core-foundation = "0.3"
objc2-core-graphics = "0.3"
objc2-foundation = "0.3"
objc2-io-surface = "0.3"
objc2-quartz-core = "0.3"
raw-window-handle = "0.6"
tracing = "0.1"
