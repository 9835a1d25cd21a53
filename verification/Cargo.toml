[package]
name = "syndicate_json_canvas"
version = "0.1.0"
edition = "2021"
publish = false

[dependencies]
chrono = "0.4"
jsoncanvas = "*"
notify-debouncer-mini = "*"
thiserror = "*"
tracing = "0.1"
