[package]
name = "space_thumbnails"
version = "0.1.0"
edition = "2021"
publish = false

[dependencies]
sha2 = "=0.10.9"
hex = "=0.4.3"
zip = { version = "=0.6.6", default-features = false, features = ["deflate"] }
image = { version = "=0.25.10", default-features = false, features = ["png", "jpeg", "bmp", "gif", "hdr", "exr"] }
psd = "=0.3.5"
uuid = { version = "=1.29.0", features = ["v4"] }
imageproc = "=0.25.1"
ab_glyph = "=0.2.32"
pdfium-render = "=0.8.37"
clap = { version = "=3.2.25", features = ["derive"] }
log = "=0.4.34"
filament-bindings = "*"
