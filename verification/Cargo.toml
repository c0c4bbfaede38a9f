[package]
name = "zk_circuits"
version = "0.1.0"
edition = "2021"
publish = false

[dependencies]
halo2_proofs = "0.2"
pasta_curves = "0.4"
