[package]
name = "option_calculator"
version = "0.1.0"
edition = "2021"
publish = false

[dependencies]
statrs = "=0.19.1"
iced = { version = "=0.14.0", default-features = false, features = ["canvas", "fira-sans", "thread-pool", "tiny-skia", "x11"] }
plotters = { version = "=0.3.7", default-features = false, features = ["area_series", "line_series", "point_series"] }
plotters-iced2 = "=0.14.0"
tracing-subscriber = "=0.3.23"
console_log = "=1.1.0"
console_error_panic_hook = "=0.1.7"
