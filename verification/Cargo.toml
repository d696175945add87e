[package]
name = "axum_cloudflare_adapter"
version = "0.1.0"
edition = "2021"
publish = false

[dependencies]
http = "=1.5.0"
axum = "=0.8.9"
worker = "=0.8.7"
tower-service = "=0.3.3"
url = "=2.5.8"
oneshot = { version = "=0.2.1", features = ["async", "std"] }
wasm-bindgen-futures = "=0.4.79"
futures = "=0.3.34"
