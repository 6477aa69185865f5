[package]
name = "rusite_front_ending"
version = "0.1.0"
edition = "2021"
publish = false

[dependencies]
pulldown-cmark = "=0.13.5"
serde_yaml = "=0.9.34"
chrono = { version = "=0.4.45", features = ["serde"] }
chrono-tz = "=0.10.4"
serde = { version = "=1.0.229", features = ["derive"] }
serde_json = "=1.0.154"
reqwest = { version = "=0.13.5", default-features = false, features = ["json"] }
leptos = { version = "=0.8.22", features = ["csr"] }
leptos_meta = "=0.8.7"
leptos_router = "=0.8.17"
leptos_icons = "=0.7.1"
icondata = "=0.7.0"
web-sys = { version = "=0.3.106", features = ["Window"] }
console_error_panic_hook = "=0.1.7"
dotenv = "=0.15.0"
