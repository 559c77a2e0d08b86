[package]
name = "ebpf_sandbox"
version = "0.1.0"
edition = "2021"
publish = false

[dependencies]
solana_rbpf = "0.2"
thiserror = "1"
