[package]
name = "ant_tunnel"
version = "0.1.0"
edition = "2021"
publish = false

[dependencies]
blake3 = "=1.8.7"
bytes = "=1.12.1"
chacha20poly1305 = "=0.10.1"
fips203 = { version = "=0.4.3", features = ["default-rng", "ml-kem-768"] }
fips204 = { version = "=0.4.6", features = ["default-rng", "ml-dsa-65"] }
hex = "=0.4.3"
js-sys = "=0.3.107"
lru = "=0.19.0"
postcard = { version = "=1.1.3", features = ["use-std"] }
rand = "=0.8.8"
rand_core = { version = "=0.6.4", features = ["getrandom"] }
rustls = "=0.23.46"
saorsa-core = "=0.29.2"
saorsa-pqc = "=0.5.2"
self_encryption = "=0.36.2"
serde = { version = "=1.0.229", features = ["derive"] }
serde_json = "=1.0.154"
serde-wasm-bindgen = "=0.6.5"
tokio = { version = "=1.54.1", features = ["macros", "rt-multi-thread", "sync", "time"] }
tokio-util = "=0.7.20"
tracing = "=0.1.44"
wasm-bindgen = "=0.2.130"
wasm-bindgen-futures = "=0.4.80"
web-sys = { version = "=0.3.107", features = ["console", "Headers", "ReadableStream", "ReadableStreamDefaultReader", "Request", "RequestInit", "Response", "Window", "WritableStream", "WritableStreamDefaultWriter"] }
wtransport = "=0.7.2"
zeroize = "=1.9.1"
