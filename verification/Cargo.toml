[package]
name = "taled_editor"
version = "0.1.0"
edition = "2021"
publish = false

[dependencies]
base64 = "0.22"
jni = "0.21"
ndk-context = "0.1"
web-sys = { version = "0.3", features = ["Window", "Document", "Element", "HtmlElement", "HtmlAnchorElement", "Blob", "BlobPropertyBag", "Url", "Event", "ErrorEvent", "PromiseRejectionEvent", "Navigator", "console"] }
js-sys = "0.3"
wasm-bindgen = "0.2"
console_error_panic_hook = "0.1"
