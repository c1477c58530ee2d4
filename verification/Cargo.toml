[package]
name = "pytracing"
version = "0.1.0"
edition = "2021"
publish = false

[dependencies]
rapidhash = "*"
time = { version = "*", features = ["formatting", "parsing", "macros", "local-offset"] }
tracing = "*"
tracing-core = "*"
tracing-subscriber = { version = "*", features = ["json", "time", "local-time"] }
tracing-appender = "*"
pyo3 = "*"
mimalloc = "*"
smallvec = "*"
eyre = "*"
valuable = "*"
