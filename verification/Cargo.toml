[package]
name = "pixel_pipeline"
version = "0.1.0"
edition = "2021"
publish = false

[dependencies]
photon-rs = { version = "*", default-features = false }
rayon = "1"
axum = "*"
axum-extra = { version = "*", features = ["query"] }
reqwest = { version = "*", default-features = false }
serde = { version = "1", features = ["derive"] }
tokio = { version = "1", features = ["macros", "rt-multi-thread", "net", "process", "sync"] }
tower-http = { version = "*", features = ["trace"] }
tracing = "*"
tracing-core = "*"
tracing-error = "*"
tracing-subscriber = "*"
clap = { version = "4", features = ["derive", "env"] }
color-eyre = "*"
notify = "*"
notify-debouncer-mini = "*"
wasm-bindgen = "*"
console_error_panic_hook = "*"
console_log = "*"
