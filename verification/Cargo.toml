[package]
name = "rmw_libp2p_rs"
version = "0.1.0"
edition = "2021"
publish = false

[dependencies]
uuid = { version = "1", features = ["v4"] }
deadqueue = "0.2"
tokio = { version = "1", features = ["rt-multi-thread", "macros", "sync", "time", "net", "io-util"] }
libp2p = { version = "=0.53.2", default-features = false, features = ["tokio", "tcp", "dns", "noise", "yamux", "gossipsub", "mdns", "macros"] }

[dev-dependencies]
cdr = "0.2"
