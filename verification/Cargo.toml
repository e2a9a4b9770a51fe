[package]
name = "virli"
version = "0.1.0"
edition = "2021"
publish = false

[dependencies]
caps = "0.5"
flate2 = "1"
libc = "0.2"
libseccomp = "0.3"
nix = { version = "0.29", features = ["mount", "sched", "user", "process", "fs", "hostname", "signal"] }
reqwest = { version = "0.12", default-features = false, features = ["blocking", "json", "rustls-tls"] }
serde = { version = "1", features = ["derive"] }
serde_json = "1"
tar = "0.4"
