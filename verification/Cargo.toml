[package]
name = "vibetty-screenshot"
version = "0.3.0"
edition = "2021"
publish = false

[dependencies]
vt100 = "=0.16.2"
image = { version = "=0.25.10", default-features = false, features = ["png"] }
tiny-skia = { version = "=0.11.4", default-features = false, features = ["std"] }
swash = "=0.2.10"
ab_glyph = "=0.2.32"
imageproc = { version = "=0.25.1", default-features = false }
freetype-rs = { version = "=0.38.0", features = ["bundled"] }
thiserror = "=2.0.21"
