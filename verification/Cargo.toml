[package]
name = "gaia_chain"
version = "0.1.0"
edition = "2021"
publish = false

[dependencies]
ink_storage = "=3.0.0-rc8"
ink_storage_derive = "=3.0.0-rc8"
ink_env = "=3.0.0-rc8"
ink_engine = "=3.0.0-rc8"
ink_allocator = "=3.0.0-rc8"
ink_metadata = "=3.0.0-rc8"
ink_primitives = "=3.0.0-rc8"
ink_prelude = "=3.0.0-rc8"
parity-scale-codec = { version = "2", features = ["derive"] }
scale-info = { version = "1", features = ["derive"] }
cosmwasm-std = "1.5"
cosmwasm-schema = "1.5"
cosmwasm-storage = "1.5"
