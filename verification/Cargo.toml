[package]
name = "cargobay"
version = "0.1.0"
edition = "2021"
publish = false

[dependencies]
block2 = "=0.6.2"
bollard = "0.18"
clap = { version = "=4.6.7", features = ["derive"] }
dispatch2 = "=0.3.1"
futures-util = "0.3"
libc = "=0.2.191"
objc2 = "=0.6.5"
objc2-foundation = { version = "=0.3.2", features = ["NSArray", "NSError", "NSFileHandle", "NSString", "NSURL"] }
prost = "=0.13.5"
reqwest = { version = "0.12", default-features = false, features = ["json", "rustls-tls"] }
serde = { version = "=1.0.229", features = ["derive"] }
serde_json = "=1.0.154"
tokio = { version = "=1.54.1", features = ["macros", "rt-multi-thread", "time", "signal"] }
tonic = "=0.12.3"
tracing = "=0.1.44"
tracing-appender = "=0.2.5"
tracing-subscriber = { version = "=0.3.23", features = ["env-filter"] }
