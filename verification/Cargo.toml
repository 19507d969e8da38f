[package]
name = "rpc"
version = "0.1.0"
edition = "2021"
publish = false

[dependencies]
console_log = "1"
futures-util = "0.3"
js-sys = "0.3"
log = "0.4"
tokio = { version = "1", features = ["rt-multi-thread", "net", "time", "sync", "macros"] }
tokio-tungstenite = "0.21"
wasm-bindgen = "0.2"
wasm-bindgen-futures = "0.4"
web-sys = { version = "0.3", features = ["BinaryType", "HtmlInputElement", "MessageEvent", "Performance", "WebSocket", "Window"] }
yew = { version = "0.21", features = ["csr"] }
