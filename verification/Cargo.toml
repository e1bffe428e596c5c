[package]
name = "frost"
version = "0.1.0"
edition = "2021"
publish = false

[dependencies]
swash = "*"
image = { version = "*", default-features = false, features = ["png"] }
log = "*"
wgpu = "*"
winit = "*"
gilrs = "*"
rodio = "*"
web-sys = { version = "*", features = ["Window", "Document", "Element", "HtmlElement", "Node", "Performance", "CssStyleDeclaration"] }
