[package]
name = "erased_cells"
version = "0.1.0"
edition = "2021"
publish = false

[dependencies]
gdal = "0.16"
num-traits = "=0.2.19"
serde = { version = "=1.0.229", features = ["derive"] }
thiserror = "=1.0.69"
