[package]
name = "bump_allocator"
version = "0.1.0"
edition = "2021"
publish = false

[dependencies]
axallocator = { version = "=0.2.0", default-features = false }
axhal = "=0.2.2-preview.6"
