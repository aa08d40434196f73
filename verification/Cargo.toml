[package]
name = "window_list"
version = "0.1.0"
edition = "2021"
publish = false

[dependencies]
plist = "=1.10.3"
objc2-core-foundation = { version = "=0.3.2", default-features = false, features = ["std", "CFArray"] }
objc2-core-graphics = { version = "=0.3.2", default-features = false, features = ["std", "CGWindow"] }
