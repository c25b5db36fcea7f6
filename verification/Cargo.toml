[package]
name = "todo_list"
version = "0.1.0"
edition = "2021"
publish = false

[dependencies]
bincode = "1.3"
cosmwasm-std = "1.5"
cw2 = "1.1"
schemars = "0.8"
serde = { version = "1", features = ["derive"] }
