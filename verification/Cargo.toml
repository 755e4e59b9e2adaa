[package]
name = "perturbation_kernel"
version = "2.1.0"
edition = "2021"
publish = false

[dependencies]
rand = "0.8.5"
rand_chacha = "0.3.1"
rand_distr = "0.4.3"
rayon = "1"
serde = { version = "1", features = ["derive"] }
serde_json = "1"
thiserror = "1"
