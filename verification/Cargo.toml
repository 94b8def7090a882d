[package]
name = "wiac_core"
version = "0.1.0"
edition = "2021"
publish = false

[dependencies]
serde = { version = "1", features = ["derive"] }
serde_json = "1"
schemars = "0.8"
thiserror = "1"
dxf = "*"
usvg = "*"
ttf-parser = "*"
