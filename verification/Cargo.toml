[package]
name = "greg_os"
version = "0.1.0"
edition = "2021"
publish = false

[dependencies]
time = "=0.3.55"
x86_64 = { version = "=0.15.5", default-features = false, features = ["instructions"] }
pic8259 = "=0.11.0"
spin = "=0.9.9"
lazy_static = "=1.5.1"
linked_list_allocator = "=0.10.6"
bootloader = "=0.9.35"
pc-keyboard = "=0.5.1"
futures-util = { version = "=0.3.34", default-features = false, features = ["alloc"] }
