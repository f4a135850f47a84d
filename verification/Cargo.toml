[package]
name = "rynk_transport"
version = "0.1.0"
edition = "2021"
publish = false

[dependencies]
bluest = "=0.6.9"
dbus = { version = "=0.9.12", features = ["vendored"] }
embedded-io-adapters = { version = "=0.7.0", features = ["tokio-1"] }
futures = "0.3"
log = "0.4"
rmk-types = { version = "=0.3.0", features = ["rynk"] }
rynk = "=0.2.0"
serialport = { version = "=4.10.1", default-features = false, features = ["usbportinfo-location"] }
tokio = { version = "1", features = ["rt", "rt-multi-thread", "sync", "time", "macros", "io-util"] }
tokio-serial = { version = "=5.5.0", default-features = false, features = ["rt"] }
