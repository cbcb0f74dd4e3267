[package]
name = "evolutionary_self_replication"
version = "0.1.0"
edition = "2021"
publish = false

[dependencies]
favannat = "*"
rand = "*"
set_genome = "*"
