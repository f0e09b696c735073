[package]
name = "tower_defense"
version = "0.1.0"
edition = "2021"
publish = false

[dependencies]
serde = { version = "=1.0.229", features = ["derive"] }
serde_json = "=1.0.154"
wasm-bindgen = "=0.2.130"
web-sys = { version = "=0.3.107", features = ["Window", "Document", "Element", "Event", "EventTarget", "CustomEvent", "CustomEventInit"] }
gloo-utils = "=0.2.0"
gloo-timers = "=0.3.0"
yew = { version = "=0.21.0", features = ["csr"] }
yewdux = "0.11"
