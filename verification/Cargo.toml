[package]
name = "sdmmc"
version = "0.1.0"
edition = "2021"
publish = false

[dependencies]
axdma = "=0.3.0-preview.3"
axhal = "=0.3.0-preview.3"
axtask = { version = "=0.3.0-preview.3", features = ["multitask"] }
log = "=0.4.35"
volatile = { version = "=0.6.1", features = ["derive"] }
