[package]
name = "jingos"
version = "0.1.0"
edition = "2021"
publish = false

[dependencies]
x86_64 = { version = "0.15", default-features = false, features = ["instructions"] }
font8x8 = { version = "0.3", default-features = false, features = ["unicode"] }
bootloader_api = "0.11"
spin = "0.9"
pic8259 = "0.11"
uart_16550 = "0.3"
linked_list_allocator = "0.10"
ovmf-prebuilt = "0.2"
