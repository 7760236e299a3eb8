[package]
name = "pov_display"
version = "0.1.0"
edition = "2021"
publish = false

[dependencies]
postcard = { version = "1", features = ["alloc"] }
serde = { version = "1", features = ["derive"] }
embedded-hal = "1"
uom = "0.36"
libm = "0.2"
clap = { version = "4", features = ["derive"] }
gltf = { version = "1", default-features = false, features = ["utils"] }
