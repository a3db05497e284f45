[package]
name = "igvm_loader"
version = "0.1.0"
edition = "2021"
publish = false

[dependencies]
vm-memory = { version = "*", features = ["backend-mmap", "backend-atomic", "backend-bitmap"] }
serde = { version = "*", features = ["derive"] }
versionize = "*"
versionize_derive = "*"
thiserror = "*"
