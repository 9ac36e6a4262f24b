[package]
name = "stellar_doctor"
version = "0.1.0"
edition = "2021"
publish = false

[dependencies]
semver = "=1.0.28"
stellar-xdr = "=27.0.0"
rustc_version = "=0.4.1"
which = "8"
tokio = { version = "1", features = ["process", "time", "io-util", "rt", "macros"] }
futures = "0.3"
libc = "0.2"
clap = { version = "4", features = ["derive"] }
thiserror = "1"
tracing = "0.1"
