[package]
name = "reflector_subscriptions"
version = "1.0.0"
edition = "2021"
publish = false

[dependencies]
soroban-sdk = "21"
