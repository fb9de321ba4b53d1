[package]
name = "gb_emu"
version = "0.1.0"
edition = "2021"
publish = false

[dependencies]
serde = { version = "1", features = ["derive"] }
serde_json = "1"
postcard = { version = "1", features = ["alloc"] }
serde-big-array = "0.5"
ringbuf = "0.4"
anyhow = "1"
minifb = "*"
gilrs = "*"
cpal = "*"
rfd = "*"
wasmtime = { version = "*", default-features = false, features = ["cranelift", "runtime", "std"] }
