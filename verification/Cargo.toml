[package]
name = "nvm_bevyutil"
version = "0.1.0"
edition = "2021"
publish = false

[dependencies]
arrayvec = "=0.7.8"
bevy = { version = "0.8", default-features = false }
num-traits = "=0.2.19"
