[package]
name = "rustos_core"
version = "0.1.0"
edition = "2021"
publish = false

[dependencies]
serde = { version = "=1.0.229", features = ["derive"] }
x86_64 = "=0.14.13"
linked_list_allocator = "=0.10.6"
