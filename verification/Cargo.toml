[package]
name = "ckb_client"
version = "0.1.0"
edition = "2021"
publish = false

[dependencies]
jsonrpc-sdk-client = "=0.1.4"
jsonrpc-sdk-prelude = "=0.1.4"
