[package]
name = "webwire"
version = "0.1.0"
edition = "2021"
publish = false

[dependencies]
bytes = "=1.12.1"
base64 = "=0.13.1"
byteorder = "=1.5.0"
uuid = "=0.8.2"
serde = { version = "=1.0.229", features = ["derive"] }
serde_json = "=1.0.154"
tokio = { version = "=1.54.1", features = ["rt-multi-thread", "macros", "sync"] }
futures = "=0.3.34"
async-trait = "=0.1.92"
dashmap = "=4.0.2"
hyper = { version = "=0.14.32", features = ["server", "http1", "tcp"] }
hyper-websocket-lite = "=0.5.0"
websocket-lite = "=0.5.0"
websocket-codec = "=0.5.0"
lapin = "=1.10.0"
tokio-amqp = "=1.1.0"
url = "=2.5.8"
tracing = "=0.1.44"
redis = "=1.8.1"
deadpool-redis = "=0.23.1"
