[package]
name = "concrete_core"
version = "0.1.0"
edition = "2021"
publish = false

[dependencies]
concrete-commons = "=0.2.1"
concrete-csprng = { version = "=0.4.1", features = ["generator_fallback", "seeder_unix"] }
