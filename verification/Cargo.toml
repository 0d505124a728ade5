[package]
name = "ecs_wasm_game"
version = "0.1.0"
edition = "2021"
publish = false

[dependencies]
serde = { version = "1", features = ["derive"] }
serde_json = "1"
wasm-bindgen = "0.2"
js-sys = "0.3"
web-sys = { version = "0.3", features = ["BinaryType", "CanvasRenderingContext2d", "CloseEvent", "DomRect", "Element", "Event", "HtmlCanvasElement", "MessageEvent", "MouseEvent", "WebSocket"] }
