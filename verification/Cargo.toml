[package]
name = "narth_net"
version = "0.1.0"
edition = "2021"
publish = false

[dependencies]
bytes = "=1.12.1"
fastrand = "=2.5.0"
hdrhistogram = "=7.6.0"
internet-checksum = "=0.2.1"
ipnet = "=2.12.2"
mio = { version = "=1.2.4", features = ["os-poll", "os-ext"] }
opentelemetry = "=0.33.1"
opentelemetry-appender-tracing = { version = "=0.33.1", features = ["experimental_span_attributes"] }
opentelemetry-otlp = "=0.33.1"
opentelemetry_sdk = "=0.33.1"
ringbuf = "=0.4.8"
thiserror = "=2.0.21"
tracing = "=0.1.44"
tracing-opentelemetry = "=0.34.0"
tracing-subscriber = { version = "=0.3.23", features = ["env-filter"] }
tun-rs = "=2.8.16"
