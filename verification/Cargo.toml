[package]
name = "lamco_rdp_server"
version = "0.1.0"
edition = "2021"
publish = false

[dependencies]
anyhow = "1"
ashpd = { version = "=0.12.3", default-features = false, features = ["tokio"] }
async-trait = "0.1"
bytes = "1"
enumflags2 = "0.7"
futures = "0.3"
ironrdp-displaycontrol = "0.8"
ironrdp-dvc = "0.8"
ironrdp-egfx = "0.3"
ironrdp-graphics = "0.9"
ironrdp-pdu = "0.9"
ironrdp-server = { version = "=0.13.0", default-features = false, features = ["egfx"] }
ironrdp-svc = "0.8"
parking_lot = "0.12"
reis = { version = "=0.7.1", features = ["tokio"] }
tokio = { version = "1", features = ["full"] }
tokio-rustls = "0.26"
tracing = "0.1"
uuid = { version = "=1.29.0", features = ["v4"] }
zbus = { version = "5", default-features = false, features = ["tokio"] }

[dev-dependencies]
ironrdp-core = "0.2"
