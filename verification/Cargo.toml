[package]
name = "publish_dht_ops"
version = "0.1.0"
edition = "2021"
publish = false

[dependencies]
holo_hash = "=0.3.6"
holochain_serialized_bytes = "*"
holochain_zome_types = { version = "=0.3.6", default-features = false }
thiserror = "=1.0.69"
tracing = "=0.1.44"
