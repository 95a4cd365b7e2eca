[package]
name = "sim_bridge"
version = "0.1.0"
edition = "2021"
publish = false

[dependencies]
bevy_app = { version = "0.13", default-features = false }
bevy_ecs = { version = "0.13", default-features = false }
bevy_input = { version = "0.13", default-features = false }
bevy_math = { version = "0.13", default-features = false }
bevy_window = { version = "0.13", default-features = false }
dominator = "*"
futures = "*"
futures-signals = "*"
gloo-events = "*"
gloo-timers = { version = "*", features = ["futures"] }
js-sys = "*"
raw-window-handle = { version = "0.6", features = ["wasm-bindgen-0-2"] }
serde = { version = "1", features = ["derive"] }
thread-safe = "*"
wasm-bindgen = "0.2"
wasm-bindgen-futures = "*"
web-rpc = "*"
web-sys = { version = "0.3", features = ["DedicatedWorkerGlobalScope", "Document", "Element", "Event", "EventTarget", "HtmlCanvasElement", "HtmlElement", "MouseEvent", "Node", "OffscreenCanvas", "PointerEvent", "WheelEvent", "Window", "Worker"] }
