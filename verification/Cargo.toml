[package]
name = "companion"
version = "0.1.0"
edition = "2021"
publish = false

[dependencies]
actix-files = "=0.6.10"
actix-web = { version = "=4.18.1", default-features = false, features = ["macros"] }
anyhow = "=1.0.104"
clap = { version = "=4.6.7", features = ["derive"] }
console_error_panic_hook = "0.1"
leptos = { version = "=0.8.22", features = ["ssr"] }
leptos_actix = "=0.8.8"
leptos_meta = { version = "=0.8.7", features = ["ssr"] }
leptos_router = { version = "=0.8.17", features = ["ssr"] }
leptos-use = { version = "*", default-features = false, features = ["use_throttle_fn"] }
log = "=0.4.34"
log4rs = { version = "1", default-features = false, features = ["console_appender", "file_appender", "pattern_encoder", "threshold_filter"] }
wasm-bindgen = "=0.2.129"
windows-service = "=0.8.1"

[dev-dependencies]
regex = "=1.13.1"
