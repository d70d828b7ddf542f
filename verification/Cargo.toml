[package]
name = "dapp_token_manager"
version = "0.1.0"
edition = "2021"
publish = false

[dependencies]
anchor-lang = "0.31"
anchor-spl = { version = "0.31", default-features = false, features = ["token", "associated_token", "mint"] }
