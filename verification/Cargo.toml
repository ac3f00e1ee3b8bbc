[package]
name = "gpui_tea"
version = "0.1.0"
edition = "2021"
publish = false

[dependencies]
futures = "=0.3.34"
metrics = "=0.24.6"
proc-macro2 = "1"
quote = "1"
syn = { version = "2", features = ["full"] }
thiserror = "=2.0.21"
tracing = "=0.1.44"
