[package]
name = "liase"
version = "0.1.0"
edition = "2021"
publish = false

[dependencies]
chrono = "=0.4.45"
serde = { version = "=1.0.229", features = ["derive"] }
serde_json = "=1.0.154"
toml = "=1.1.8"
sqlite = "=0.37.4"
octocrab = "=0.42.1"
tokio = { version = "=1.54.1", features = ["sync", "time", "macros", "rt"] }
log = "=0.4.35"
env_logger = "=0.11.11"
async-channel = "=2.5.0"
futures-lite = "=2.6.1"
wasm-bindgen = "=0.2.130"
wasm-bindgen-futures = "=0.4.80"
js-sys = "=0.3.107"
web-sys = { version = "=0.3.107", features = ["HtmlElement", "HtmlInputElement"] }
serde-wasm-bindgen = "=0.6.5"
mogwai = "=0.7.8"
