[package]
name = "tansu_broker"
version = "0.1.0"
edition = "2021"
publish = false

[dependencies]
crc = "*"
tokio = { version = "*", features = ["rt-multi-thread", "net", "io-util", "macros", "time"] }
tracing = "*"
tracing-subscriber = { version = "*", features = ["env-filter", "json"] }
url = "*"
uuid = { version = "*", features = ["v7"] }
opentelemetry = "*"
opentelemetry_sdk = "*"
opentelemetry-otlp = { version = "*", features = ["grpc-tonic", "trace", "metrics"] }
opentelemetry-semantic-conventions = { version = "*", features = ["semconv_experimental"] }
