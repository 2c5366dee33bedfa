[package]
name = "roast"
version = "0.1.0"
edition = "2021"
publish = false

[dependencies]
rand = "0.8"
schnorr_fun = { version = "0.9", features = ["serde"] }
secp256kfun = { version = "0.9", features = ["serde"] }
serde_json = "1"
sha2 = "0.10"

[dev-dependencies]
proptest = { version = "=1.4.0", default-features = false, features = ["std"] }
