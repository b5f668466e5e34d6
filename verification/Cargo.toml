[package]
name = "usbmagic"
version = "0.1.0"
edition = "2021"
publish = false

[dependencies]
anyhow = "1"
clap = { version = "4", features = ["derive"] }
ctrlc = "3"
nusb = "0.2"
rawusb = "*"
thiserror = "2"
