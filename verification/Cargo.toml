[package]
name = "stack_lang"
version = "0.1.0"
edition = "2021"

[dependencies]
num = "0.4"
clap = { version = "4", features = ["derive"] }
serde = { version = "1", features = ["derive"] }
postcard = { version = "1", features = ["alloc"] }
thiserror = "1"
