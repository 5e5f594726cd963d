[package]
name = "taskmaid"
version = "0.1.0"
edition = "2021"
publish = false

[dependencies]
tokio = { version = "*", features = ["sync", "rt", "net", "macros"] }
futures = "*"
tracing = "*"
tracing-subscriber = { version = "*", features = ["env-filter", "fmt"] }
atty = "*"
eyre = "*"
color-eyre = "*"
wayland-client = "*"
wayland-protocols-wlr = { version = "*", features = ["client"] }
