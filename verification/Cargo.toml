[package]
name = "chess_turn"
version = "0.1.0"
edition = "2021"
publish = false

[dependencies]
chess-engine = "=0.1.2"
risc0-zkvm = { version = "=3.0.6", default-features = false, features = ["std"] }

[dev-dependencies]
alloy-sol-types = "=1.7.3"
ethabi = "=18.0.0"
