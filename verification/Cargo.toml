[package]
name = "reactive_core"
version = "0.1.0"
edition = "2021"
publish = false

[dependencies]
im-rc = "*"
slab = "*"
waker-fn = "*"
futures-lite = "*"
scopeguard = "*"
async-task = "*"
