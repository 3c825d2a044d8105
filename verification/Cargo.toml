[package]
name = "ratatui_wasm"
version = "0.1.0"
edition = "2021"
publish = false

[dependencies]
crossterm = "=0.28.1"
futures = "=0.3.34"
ratatui = "=0.29.0"
terminput = "=0.5.15"
terminput-crossterm = { version = "=0.4.11", default-features = false, features = ["crossterm_0_28"] }
wasm-bindgen = "=0.2.129"
web-sys = { version = "=0.3.106", features = ["Element", "HtmlElement"] }
xterm-js-rs = { version = "=0.1.2", features = ["xterm-addon-fit"] }
