[package]
name = "session_watch"
version = "0.1.0"
edition = "2021"
publish = false

[dependencies]
notify = "6.1"
notify-debouncer-full = "0.3"
tracing = "0.1"
