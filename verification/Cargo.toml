[package]
name = "todo_kernel"
version = "0.1.0"
edition = "2021"
publish = false

[dependencies]
magic-crypt = "=6.0.0"
tezos-smart-rollup = { version = "=0.2.2", default-features = false, features = ["std", "storage"] }
tezos_data_encoding = "=0.5.2"
