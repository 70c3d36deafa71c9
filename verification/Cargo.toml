[package]
name = "quoridor_net"
version = "0.1.0"
edition = "2021"
publish = false

[dependencies]
bimap = "=0.6.3"
bincode = "=1.3.3"
crossbeam-channel = "=0.5.17"
futures = "=0.3.34"
js-sys = "=0.3.106"
pretty_env_logger = "=0.5.0"
serde = { version = "=1.0.229", features = ["derive"] }
tokio = { version = "=1.54.1", features = ["macros", "rt-multi-thread", "sync", "time"] }
warp = "=0.3.7"
wasm-bindgen = "=0.2.129"
web-sys = { version = "=0.3.106", features = ["BinaryType", "CanvasRenderingContext2d", "CssStyleDeclaration", "Document", "DomRect", "Element", "Event", "EventTarget", "HtmlCanvasElement", "HtmlElement", "Location", "MessageEvent", "MouseEvent", "PointerEvent", "WebSocket", "Window"] }
