[package]
name = "greenie"
version = "0.1.0"
edition = "2021"
publish = false

[dependencies]
rand = "0.7"
parking_lot = "0.10"
crossbeam-deque = "0.7"
libc = "0.2"
lazy_static = "1.4"
