[package]
name = "defa_protocol"
version = "0.1.0"
edition = "2021"
publish = false

[dependencies]
cosmwasm-std = { version = "=2.3.6", features = ["stargate"] }
cosmwasm-schema = "=2.3.6"
cw-storage-plus = "=2.0.0"
cw2 = "=2.0.0"
prost = "=0.13.5"
serde = { version = "=1.0.229", features = ["derive"] }
thiserror = "=1.0.69"
