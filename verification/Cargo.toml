[package]
name = "quark_compress"
version = "0.1.0"
edition = "2021"
publish = false

# burn-autodiff and burn-nn come with burn. They are named for their `std` feature alone, which
# burn's own `std` feature would switch on together with much that is not needed.
[dependencies]
anyhow = "=1.0.104"
burn = { version = "=0.20.1", default-features = false, features = ["train"] }
burn-autodiff = { version = "=0.20.1", default-features = false, features = ["std"] }
burn-ndarray = { version = "=0.20.1", default-features = false, features = ["std"] }
burn-nn = { version = "=0.20.1", default-features = false, features = ["std"] }
serde = { version = "=1.0.229", features = ["derive"] }
serde_json = "=1.0.154"
tracing = "=0.1.44"
