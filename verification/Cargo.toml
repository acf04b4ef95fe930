[package]
name = "axi-dmac"
version = "0.1.0"
edition = "2021"
publish = false

[dependencies]
arbitrary-int = "=2.2.0"
bitbybit = "*"
derive-mmio = "=0.8.0"
static_assertions = "=1.1.0"
thiserror = "=2.0.21"
