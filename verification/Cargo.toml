[package]
name = "blitzar"
version = "0.1.0"
edition = "2021"
publish = false

[dependencies]
ark-bls12-381 = "=0.5.0"
ark-bn254 = "=0.5.0"
ark-ec = "=0.5.0"
ark-ff = "=0.5.0"
ark-grumpkin = "=0.5.0"
ark-std = "=0.5.0"
blitzar-sys = "=1.115.3"
byte-slice-cast = "=1.2.3"
bytemuck = "=1.25.2"
curve25519-dalek = { version = "=5.0.0", features = ["serde"] }
halo2curves = "=0.10.0"
merlin = "=3.0.0"
rayon = "=1.12.0"
serde = { version = "=1.0.229", features = ["derive"] }
thiserror = "=2.0.21"

[dev-dependencies]
ark-curve25519 = "=0.5.0"
