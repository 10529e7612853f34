[package]
name = "tracing-eventlog"
version = "0.1.0"
edition = "2021"
publish = false

[dependencies]
thiserror = "=1.0.69"
tracing = "=0.1.44"
tracing-core = "=0.1.36"
tracing-subscriber = "=0.3.23"
widestring = "=1.2.1"
windows = { version = "=0.59.0", features = ["Win32_Foundation", "Win32_Security", "Win32_System_EventLog"] }
windows-registry = "=0.5.3"
