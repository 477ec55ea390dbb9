[package]
name = "unbound_telemetry"
version = "0.1.0"
edition = "2021"
publish = false

[dependencies]
domain = "*"
tokio = { version = "1", features = ["rt-multi-thread", "macros", "net", "io-util", "signal", "time"] }
hyper = { version = "0.14", features = ["server", "http1", "tcp"] }
async-trait = "*"
log = "*"
simple_logger = "*"
structopt = "0.3"
native-tls = "*"
tokio-native-tls = "*"
