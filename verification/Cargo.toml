[package]
name = "siphon_zk_pool"
version = "0.1.0"
edition = "2021"
publish = false
