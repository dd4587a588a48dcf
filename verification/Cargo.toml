[package]
name = "psf"
version = "0.1.0"
edition = "2021"
publish = false

[dependencies]
sha2 = "0.10"
yaserde = "0.13"
yaserde_derive = "0.13"
arbitrary = { version = "1", features = ["derive"] }
thiserror = "2"
