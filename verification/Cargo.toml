[package]
name = "deposit_cw20"
version = "0.1.0"
edition = "2021"
publish = false

[dependencies]
cosmwasm-std = "=2.3.5"
cw2 = "=2.0.0"
cw20 = "=2.0.0"
thiserror = "=2.0.21"
serde = { version = "=1.0.229", features = ["derive"] }
