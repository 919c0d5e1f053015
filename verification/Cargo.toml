[package]
name = "usbsrctl"
version = "0.1.0"
edition = "2021"
publish = false

[dependencies]
roxmltree = "=0.21.2"
sha2 = "=0.11.1"
