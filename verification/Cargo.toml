[package]
name = "fastladder_bookwalker"
version = "0.1.0"
edition = "2021"
publish = false

[dependencies]
select = "*"
url = "*"
clap = "*"
hyper = { version = "*", features = ["client", "http1"] }
hyper-rustls = { version = "*", default-features = false, features = ["ring", "webpki-roots", "http1", "tls12"] }
hyper-util = { version = "*", features = ["client-legacy", "http1", "tokio"] }
http-body-util = "*"
tokio = { version = "*", features = ["rt"] }

[dev-dependencies]
serde_json = "*"
