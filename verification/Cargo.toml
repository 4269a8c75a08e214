[package]
name = "descriptor_provisioner"
version = "0.1.0"
edition = "2021"
publish = false

[dependencies]
bdk = "=0.30.2"
