[package]
name = "pdf_organizer"
version = "0.1.0"
edition = "2021"
publish = false

[dependencies]
iced = { version = "=0.14.0", default-features = false, features = ["tiny-skia", "image-without-codecs", "x11", "thread-pool"] }
pdfium-render = "=0.9.5"
rfd = { version = "=0.15.4", default-features = false, features = ["xdg-portal", "tokio"] }
wayland-sys = { version = "=0.31.11", features = ["dlopen"] }
serde = { version = "1", features = ["derive"] }
serde_json = "1"
dirs = "6"
